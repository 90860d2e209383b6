//! The shared-memory region through which the server hands messages to the
//! client.
//!
//! Layout: byte 0 is the "write complete" flag (1 when the writer is done),
//! bytes 1..5 hold the number of records written (a little-endian `u32`), and
//! record `k` starts at byte `5 + k * RECORD_SIZE`.

use vstd::prelude::*;
use vstd::bytes::*;
use vstd::slice::*;
use vstd::utf8::{encode_utf8, is_ascii_chars_encode_utf8, valid_utf8, valid_utf8_concat, encode_utf8_valid_utf8};
use crate::datastructs::{
    InterData, encode_record, record_bytes1, record_bytes2, record_serial, record_well_formed,
    zero_padded, lemma_record_round_trip, RECORD_READ_SIZE, RECORD_SIZE, STRING_SIZE,
};

verus! {

/// Size of the region's header: the flag byte and the record count.
pub const HEADER_SIZE: usize = 5;

/// The record count stored in the header of `r`.
pub open spec fn region_count(r: Seq<u8>) -> u32 {
    spec_u32_from_le_bytes(r.subrange(1, 5))
}

/// The writer has marked the region complete.
pub open spec fn region_ready(r: Seq<u8>) -> bool {
    r[0] == 1
}

/// Offset of record `k` in the region.
pub open spec fn record_offset(k: int) -> int {
    HEADER_SIZE + k * RECORD_SIZE
}

/// The bytes of `r` from the start of record `k` to the end of the region.
pub open spec fn region_record(r: Seq<u8>, k: int) -> Seq<u8> {
    r.subrange(record_offset(k), r.len() as int)
}

/// `r` with `data` written over it from offset `off`.
pub open spec fn splice(r: Seq<u8>, off: int, data: Seq<u8>) -> Seq<u8> {
    r.subrange(0, off) + data + r.subrange(off + data.len(), r.len() as int)
}

/// The region after the writer has added a record holding `key`, `value` and
/// `serial`: the flag is cleared, the record goes to the slot named by the
/// current count, and the count becomes `serial + 1`.
pub open spec fn region_after_fill(r: Seq<u8>, key: Seq<u8>, value: Seq<u8>, serial: u32) -> Seq<u8> {
    let off = record_offset(region_count(r) as int);
    splice(
        splice(r.update(0, 0), off, encode_record(serial, zero_padded(key), zero_padded(value))),
        1,
        spec_u32_to_le_bytes((serial + 1) as u32),
    )
}

/// The slot named by the current count of `r` fits in `r`.
pub open spec fn fill_fits(r: Seq<u8>) -> bool {
    &&& r.len() >= HEADER_SIZE
    &&& record_offset(region_count(r) + 1) <= r.len()
}

/// The record count stored in the region's header.
pub fn written_count(region: &[u8]) -> (n: u32)
    requires
        region@.len() >= HEADER_SIZE,
    ensures
        n == region_count(region@),
{
    u32_from_le_bytes(slice_subrange(region, 1, 5))
}

/// Whether the writer has marked the region complete.
pub fn is_ready(region: &[u8]) -> (b: bool)
    requires
        region@.len() >= HEADER_SIZE,
    ensures
        b == region_ready(region@),
{
    region[0] == 1
}

/// Adds one record (the signed message `key` and the verifying key `value`)
/// to the region, as the server does for each message it takes from storage.
pub fn fill_sh_memory(region: &mut [u8], key: String, value: Vec<u8>, serial_msg: u32)
    requires
        fill_fits(old(region)@),
        encode_utf8(key@).len() <= STRING_SIZE,
        value@.len() <= STRING_SIZE,
        serial_msg < u32::MAX,
    ensures
        final(region)@ == region_after_fill(old(region)@, encode_utf8(key@), value@, serial_msg),
{
    let ghost r_in = region@;
    region[0] = 0;
    let n = written_count(region);
    assert(region@.subrange(1, 5) =~= r_in.subrange(1, 5));
    let mut buf = InterData::new();
    buf.increment_serial(serial_msg);
    let key_bytes = key.as_str().as_bytes();
    buf.assign_bytes0(key_bytes);
    buf.assign_bytes1(value.as_slice());
    assert(buf.bytes1@ =~= zero_padded(key_bytes@));
    assert(buf.bytes2@ =~= zero_padded(value@));
    let bytes = buf.serialize();
    let off: usize = HEADER_SIZE + (n as usize) * RECORD_SIZE;
    let ghost r_flag = region@;
    let region_len = region.len();
    let mut i: usize = 0;
    while i < RECORD_SIZE
        invariant
            bytes@.len() == RECORD_SIZE,
            region_len == region@.len(),
            off == record_offset(n as int),
            off + RECORD_SIZE <= region@.len(),
            r_flag.len() == region@.len(),
            i <= RECORD_SIZE,
            forall|j: int| 0 <= j < off ==> region@[j] == r_flag[j],
            forall|j: int| off <= j < off + i ==> region@[j] == bytes@[j - off],
            forall|j: int| off + i <= j < region@.len() ==> region@[j] == r_flag[j],
        decreases RECORD_SIZE - i,
    {
        region[off + i] = bytes[i];
        i = i + 1;
    }
    let ghost r_rec = region@;
    assert(r_rec =~= splice(r_in.update(0, 0), off as int, bytes@));
    let count = u32_to_le_bytes(serial_msg + 1);
    let mut k: usize = 0;
    while k < 4
        invariant
            count@.len() == 4,
            HEADER_SIZE <= off,
            r_rec.len() == region@.len(),
            region@.len() >= HEADER_SIZE,
            k <= 4,
            region@[0] == r_rec[0],
            forall|j: int| 1 <= j < 1 + k ==> region@[j] == count@[j - 1],
            forall|j: int| 1 + k <= j < region@.len() ==> region@[j] == r_rec[j],
        decreases 4 - k,
    {
        region[1 + k] = count[k];
        k = k + 1;
    }
    assert(region@ =~= splice(r_rec, 1, count@));
}

/// Marks the region complete, so that a reader may take the records.
pub fn write_complite(region: &mut [u8])
    requires
        old(region)@.len() >= HEADER_SIZE,
    ensures
        final(region)@ == old(region)@.update(0, 1),
{
    region[0] = 1;
}

/// The region after the writer has added `entries` in order, entry `k`
/// carrying serial `k`.
pub open spec fn region_after_fills(r: Seq<u8>, entries: Seq<(Seq<u8>, Seq<u8>)>) -> Seq<u8>
    decreases entries.len(),
{
    if entries.len() == 0 {
        r
    } else {
        region_after_fill(
            region_after_fills(r, entries.drop_last()),
            entries.last().0,
            entries.last().1,
            (entries.len() - 1) as u32,
        )
    }
}

/// Every entry fits in a record.
pub open spec fn entries_fit(entries: Seq<(Seq<u8>, Seq<u8>)>) -> bool {
    forall|k: int|
        0 <= k < entries.len() ==> (#[trigger] entries[k]).0.len() <= STRING_SIZE
            && entries[k].1.len() <= STRING_SIZE
}

/// A region of this length holds `n` records and what a reader takes past
/// the last one.
pub open spec fn region_holds(len: int, n: int) -> bool {
    len >= record_offset(n) + (RECORD_READ_SIZE - RECORD_SIZE)
}

/// Two byte strings that agree on their first `RECORD_SIZE` bytes and have
/// the same length hold the same record.
proof fn lemma_same_record(a: Seq<u8>, b: Seq<u8>)
    requires
        a.len() == b.len(),
        a.len() >= RECORD_SIZE,
        a.subrange(0, RECORD_SIZE as int) == b.subrange(0, RECORD_SIZE as int),
    ensures
        record_well_formed(a) == record_well_formed(b),
        record_serial(a) == record_serial(b),
        record_bytes1(a) == record_bytes1(b),
        record_bytes2(a) == record_bytes2(b),
{
    let n = RECORD_SIZE as int;
    assert(a.subrange(0, 4) =~= a.subrange(0, n).subrange(0, 4));
    assert(b.subrange(0, 4) =~= b.subrange(0, n).subrange(0, 4));
    assert(a.subrange(4, 12) =~= a.subrange(0, n).subrange(4, 12));
    assert(b.subrange(4, 12) =~= b.subrange(0, n).subrange(4, 12));
    assert(a.subrange(12, 524) =~= a.subrange(0, n).subrange(12, 524));
    assert(b.subrange(12, 524) =~= b.subrange(0, n).subrange(12, 524));
    assert(a.subrange(524, 532) =~= a.subrange(0, n).subrange(524, 532));
    assert(b.subrange(524, 532) =~= b.subrange(0, n).subrange(524, 532));
    assert(a.subrange(532, n) =~= a.subrange(0, n).subrange(532, n));
    assert(b.subrange(532, n) =~= b.subrange(0, n).subrange(532, n));
}

/// What the writer stores, the reader gets back: after the writer has added
/// `entries` to a region whose count was 0, one after the other, the count is
/// the number of entries, the ready flag is cleared (when there was an entry),
/// and record `k` is well formed, carries serial `k`, and holds entry `k`'s
/// message and key, each padded with zeros to `STRING_SIZE` bytes: records
/// are appended in order and none is overwritten.
pub proof fn lemma_fills_then_read(r: Seq<u8>, entries: Seq<(Seq<u8>, Seq<u8>)>)
    requires
        region_count(r) == 0,
        r.len() >= HEADER_SIZE,
        region_holds(r.len() as int, entries.len() as int),
        entries.len() < u32::MAX,
        entries_fit(entries),
    ensures
        region_after_fills(r, entries).len() == r.len(),
        region_count(region_after_fills(r, entries)) == entries.len(),
        entries.len() > 0 ==> region_after_fills(r, entries)[0] == 0,
        records_readable(region_after_fills(r, entries), entries.len() as int),
        forall|k: int| 0 <= k < entries.len() ==>
            record_serial(#[trigger] region_record(region_after_fills(r, entries), k)) == k,
        forall|k: int| 0 <= k < entries.len() ==>
            record_bytes1(#[trigger] region_record(region_after_fills(r, entries), k))
                == zero_padded(entries[k].0),
        forall|k: int| 0 <= k < entries.len() ==>
            record_bytes2(#[trigger] region_record(region_after_fills(r, entries), k))
                == zero_padded(entries[k].1),
    decreases entries.len(),
{
    lemma_auto_spec_u32_to_from_le_bytes();
    let n = entries.len() as int;
    if n == 0 {
        return;
    }
    let prev_entries = entries.drop_last();
    assert forall|k: int| 0 <= k < prev_entries.len() implies (#[trigger] prev_entries[k]).0.len() <= STRING_SIZE
        && prev_entries[k].1.len() <= STRING_SIZE by {
        assert(prev_entries[k] == entries[k]);
    }
    lemma_fills_then_read(r, prev_entries);
    let p = region_after_fills(r, prev_entries);
    let m = n - 1;
    let e = entries.last();
    assert(e == entries[m]);
    let f = region_after_fills(r, entries);
    assert(f == region_after_fill(p, e.0, e.1, m as u32));
    let off = record_offset(m);
    let enc = encode_record(m as u32, zero_padded(e.0), zero_padded(e.1));
    assert(enc.len() == RECORD_SIZE) by {
        lemma_auto_spec_u64_to_from_le_bytes();
    }
    let step1 = splice(p.update(0, 0), off, enc);
    assert(step1.len() == p.len());
    let cnt = spec_u32_to_le_bytes((m + 1) as u32);
    assert(f == splice(step1, 1, cnt));
    assert(f.len() == r.len());
    assert(f.subrange(1, 5) =~= cnt);
    assert(region_count(f) == n);
    assert(step1[0] == p.update(0, 0)[0]);
    assert(f[0] == step1[0]);
    // the new record
    let tail = f.subrange(off + RECORD_SIZE, f.len() as int);
    assert(region_record(f, m) =~= enc + tail);
    lemma_record_round_trip(m as u32, zero_padded(e.0), zero_padded(e.1), tail);
    // the earlier records are untouched
    assert forall|k: int| 0 <= k < m implies
        record_offset(k) + RECORD_READ_SIZE <= f.len()
        && #[trigger] record_well_formed(region_record(f, k))
        && record_serial(region_record(f, k)) == k
        && record_bytes1(region_record(f, k)) == zero_padded(entries[k].0)
        && record_bytes2(region_record(f, k)) == zero_padded(entries[k].1) by {
        let ok = record_offset(k);
        assert(prev_entries[k] == entries[k]);
        assert(record_well_formed(region_record(p, k)));
        assert(region_record(f, k).subrange(0, RECORD_SIZE as int)
            =~= region_record(p, k).subrange(0, RECORD_SIZE as int));
        lemma_same_record(region_record(f, k), region_record(p, k));
    }
    assert(record_serial(region_record(f, m)) == m);
    assert(record_bytes1(region_record(f, m)) == zero_padded(entries[m].0));
    assert(record_bytes2(region_record(f, m)) == zero_padded(entries[m].1));
    assert forall|k: int| 0 <= k < n implies
        record_serial(#[trigger] region_record(f, k)) == k
        && record_bytes1(region_record(f, k)) == zero_padded(entries[k].0)
        && record_bytes2(region_record(f, k)) == zero_padded(entries[k].1) by {
        if k < m {
            assert(record_well_formed(region_record(f, k)));
        } else {
            assert(k == m);
        }
    }
    assert(records_readable(f, n));
}

/// A fill keeps the region's length and leaves the count at `serial + 1`.
pub proof fn lemma_fill_facts(r: Seq<u8>, key: Seq<u8>, value: Seq<u8>, serial: u32)
    requires
        fill_fits(r),
        key.len() <= STRING_SIZE,
        value.len() <= STRING_SIZE,
        serial < u32::MAX,
    ensures
        region_after_fill(r, key, value, serial).len() == r.len(),
        region_count(region_after_fill(r, key, value, serial)) == serial + 1,
{
    lemma_auto_spec_u32_to_from_le_bytes();
    lemma_auto_spec_u64_to_from_le_bytes();
    let f = region_after_fill(r, key, value, serial);
    assert(f.subrange(1, 5) =~= spec_u32_to_le_bytes((serial + 1) as u32));
}

/// Zero padding keeps UTF-8 text valid: the zeros are NUL characters.
pub proof fn lemma_padded_text_valid(text: Seq<u8>)
    requires
        valid_utf8(text),
        text.len() <= STRING_SIZE,
    ensures
        valid_utf8(zero_padded(text)),
{
    let nuls = Seq::new((STRING_SIZE - text.len()) as nat, |i: int| '\0');
    let zeros = Seq::new((STRING_SIZE - text.len()) as nat, |i: int| 0u8);
    assert(vstd::utf8::is_ascii_chars(nuls));
    is_ascii_chars_encode_utf8(nuls);
    assert(encode_utf8(nuls) =~= zeros);
    encode_utf8_valid_utf8(nuls);
    valid_utf8_concat(text, zeros);
}

/// What the server stores, the client reads: after the writer has added
/// `entries` to a region whose count was 0 and marked it complete, the region
/// is ready, its count is the number of entries, and the reader's
/// precondition holds for all of them; record `k` holds entry `k`'s message
/// (whose text stays valid) and key, padded with zeros.
pub proof fn lemma_store_then_read(r: Seq<u8>, entries: Seq<(Seq<u8>, Seq<u8>)>)
    requires
        region_count(r) == 0,
        r.len() >= HEADER_SIZE,
        region_holds(r.len() as int, entries.len() as int),
        entries.len() < u32::MAX,
        entries_fit(entries),
        forall|k: int| 0 <= k < entries.len() ==> valid_utf8((#[trigger] entries[k]).0),
    ensures
        region_ready(region_after_fills(r, entries).update(0, 1)),
        region_count(region_after_fills(r, entries).update(0, 1)) == entries.len(),
        records_readable(region_after_fills(r, entries).update(0, 1), entries.len() as int),
        records_text_valid(region_after_fills(r, entries).update(0, 1), entries.len() as int),
        forall|k: int| 0 <= k < entries.len() ==>
            record_bytes1(#[trigger] region_record(region_after_fills(r, entries).update(0, 1), k))
                == zero_padded(entries[k].0),
        forall|k: int| 0 <= k < entries.len() ==>
            record_bytes2(#[trigger] region_record(region_after_fills(r, entries).update(0, 1), k))
                == zero_padded(entries[k].1),
{
    lemma_fills_then_read(r, entries);
    let f = region_after_fills(r, entries);
    let s = f.update(0, 1);
    assert(s.subrange(1, 5) =~= f.subrange(1, 5));
    assert forall|k: int| 0 <= k < entries.len() implies
        #[trigger] region_record(s, k) == region_record(f, k) by {
        assert(region_record(s, k) =~= region_record(f, k));
    }
    assert forall|k: int| 0 <= k < entries.len() implies
        valid_utf8(record_bytes1(#[trigger] region_record(s, k))) by {
        assert(region_record(s, k) == region_record(f, k));
        assert(valid_utf8(entries[k].0));
        lemma_padded_text_valid(entries[k].0);
    }
    assert forall|k: int| 0 <= k < entries.len() implies
        record_offset(k) + RECORD_READ_SIZE <= s.len()
            && #[trigger] record_well_formed(region_record(s, k)) by {
        assert(region_record(s, k) == region_record(f, k));
        assert(record_well_formed(region_record(f, k)));
    }
}

/// After the client's read the region is not ready and counts no record, so
/// the writer's next round starts again at slot 0.
pub proof fn lemma_read_resets(r: Seq<u8>)
    requires
        r.len() >= HEADER_SIZE,
    ensures
        splice(r.update(0, 0), 1, spec_u32_to_le_bytes(0)).len() == r.len(),
        !region_ready(splice(r.update(0, 0), 1, spec_u32_to_le_bytes(0))),
        region_count(splice(r.update(0, 0), 1, spec_u32_to_le_bytes(0))) == 0,
{
    lemma_auto_spec_u32_to_from_le_bytes();
    let s = splice(r.update(0, 0), 1, spec_u32_to_le_bytes(0));
    assert(s.subrange(1, 5) =~= spec_u32_to_le_bytes(0));
}

/// Calls `std::str::from_utf8`. The contract claims what std documents: the
/// conversion succeeds exactly when the bytes are valid UTF-8, and the string
/// then consists of exactly those bytes.
#[verifier::external_body]
pub(crate) fn str_from_utf8(bytes: &[u8]) -> (r: Option<&str>)
    ensures
        r is Some <==> valid_utf8(bytes@),
        r matches Some(s) ==> encode_utf8(s@) == bytes@,
{
    std::str::from_utf8(bytes).ok()
}

/// Records `0..n` of `r` can be read: each is well formed.
pub open spec fn records_readable(r: Seq<u8>, n: int) -> bool {
    forall|k: int|
        0 <= k < n ==> record_offset(k) + RECORD_READ_SIZE <= r.len()
            && #[trigger] record_well_formed(region_record(r, k))
}

/// The `bytes1` fields of records `0..n` of `r` are valid UTF-8.
pub open spec fn records_text_valid(r: Seq<u8>, n: int) -> bool {
    forall|k: int| 0 <= k < n ==> valid_utf8(record_bytes1(#[trigger] region_record(r, k)))
}

/// Whether records `0..n` of the region are well formed and their messages
/// are UTF-8 text, so that `read_shmem` can take them.
pub fn records_check(region: &[u8], n: u32) -> (b: bool)
    ensures
        b == (records_readable(region@, n as int) && records_text_valid(region@, n as int)),
{
    let len = region.len();
    let mut k: u32 = 0;
    while k < n
        invariant
            len == region@.len(),
            k <= n,
            records_readable(region@, k as int),
            records_text_valid(region@, k as int),
        decreases n - k,
    {
        if (k as usize) > len / RECORD_SIZE {
            assert(record_offset(k as int) > len) by (nonlinear_arith)
                requires
                    k as int > len as int / RECORD_SIZE as int,
            ;
            assert(!records_readable(region@, n as int)) by {
                if records_readable(region@, n as int) {
                    assert(0 <= k < n);
                    assert(record_well_formed(region_record(region@, k as int)));
                    assert(record_offset(k as int) + RECORD_READ_SIZE <= region@.len());
                }
            }
            return false;
        }
        assert((k as int) * RECORD_SIZE <= len) by (nonlinear_arith)
            requires
                k as int <= len as int / RECORD_SIZE as int,
        ;
        let off: usize = HEADER_SIZE + (k as usize) * RECORD_SIZE;
        if len < RECORD_READ_SIZE || off > len - RECORD_READ_SIZE {
            assert(!records_readable(region@, n as int)) by {
                if records_readable(region@, n as int) {
                    assert(0 <= k < n);
                    assert(record_well_formed(region_record(region@, k as int)));
                    assert(record_offset(k as int) + RECORD_READ_SIZE <= region@.len());
                }
            }
            return false;
        }
        let rec = slice_subrange(region, off, len);
        assert(rec@ == region_record(region@, k as int));
        let len1 = u64_from_le_bytes(slice_subrange(rec, 4, 12));
        let len2 = u64_from_le_bytes(slice_subrange(rec, 524, 532));
        if len1 != 512 || len2 != 512 {
            assert(rec@.subrange(4, 12) == region_record(region@, k as int).subrange(4, 12));
            assert(!records_readable(region@, n as int)) by {
                if records_readable(region@, n as int) {
                    assert(0 <= k < n);
                    assert(record_well_formed(region_record(region@, k as int)));
                    assert(record_offset(k as int) + RECORD_READ_SIZE <= region@.len());
                }
            }
            return false;
        }
        let text = slice_subrange(rec, 12, 524);
        if str_from_utf8(text).is_none() {
            assert(!valid_utf8(record_bytes1(region_record(region@, k as int))));
            return false;
        }
        assert(record_well_formed(region_record(region@, k as int)));
        assert(valid_utf8(record_bytes1(region_record(region@, k as int))));
        k = k + 1;
    }
    true
}

/// Reads record `k` of the region.
pub fn read_record(region: &[u8], k: u32) -> (d: InterData<STRING_SIZE>)
    requires
        record_offset(k as int) + RECORD_READ_SIZE <= region@.len(),
        record_well_formed(region_record(region@, k as int)),
    ensures
        d.serial == record_serial(region_record(region@, k as int)),
        d.bytes1@ == record_bytes1(region_record(region@, k as int)),
        d.bytes2@ == record_bytes2(region_record(region@, k as int)),
{
    let len = region.len();
    let off: usize = HEADER_SIZE + (k as usize) * RECORD_SIZE;
    InterData::deserialize(slice_subrange(region, off, region.len()))
}

/// The client's read of the region once the writer marked it complete: takes
/// records `0..n_msg`, the text of each record's `bytes1` (the signed message)
/// and its `bytes2` (the verifying key), then clears the flag and the count
/// so that the writer may start over.
pub fn read_shmem(region: &mut [u8], n_msg: u32) -> (r: (Vec<String>, Vec<Vec<u8>>))
    requires
        old(region)@.len() >= HEADER_SIZE,
        region_ready(old(region)@),
        records_readable(old(region)@, n_msg as int),
        records_text_valid(old(region)@, n_msg as int),
    ensures
        r.0@.len() == n_msg,
        r.1@.len() == n_msg,
        forall|k: int| 0 <= k < n_msg ==>
            encode_utf8(#[trigger] r.0@[k]@) == record_bytes1(region_record(old(region)@, k)),
        forall|k: int| 0 <= k < n_msg ==>
            #[trigger] r.1@[k]@ == record_bytes2(region_record(old(region)@, k)),
        final(region)@ == splice(old(region)@.update(0, 0), 1, spec_u32_to_le_bytes(0)),
{
    let mut msgs: Vec<String> = Vec::new();
    let mut keys: Vec<Vec<u8>> = Vec::new();
    let mut k: u32 = 0;
    while k < n_msg
        invariant
            region@ == old(region)@,
            records_readable(region@, n_msg as int),
            records_text_valid(region@, n_msg as int),
            k <= n_msg,
            msgs@.len() == k,
            keys@.len() == k,
            forall|j: int| 0 <= j < k ==>
                encode_utf8(#[trigger] msgs@[j]@) == record_bytes1(region_record(region@, j)),
            forall|j: int| 0 <= j < k ==>
                #[trigger] keys@[j]@ == record_bytes2(region_record(region@, j)),
        decreases n_msg - k,
    {
        assert(record_well_formed(region_record(region@, k as int)));
        assert(valid_utf8(record_bytes1(region_record(region@, k as int))));
        let data = read_record(region, k);
        let text = str_from_utf8(data.bytes1.as_slice());
        let text = match text {
            Some(t) => t,
            None => {
                assert(false);
                ""
            },
        };
        msgs.push(text.to_owned());
        keys.push(slice_to_vec(data.bytes2.as_slice()));
        k = k + 1;
    }
    let ghost r_in = region@;
    region[0] = 0;
    let zero = u32_to_le_bytes(0);
    let mut i: usize = 0;
    while i < 4
        invariant
            zero@ == spec_u32_to_le_bytes(0),
            zero@.len() == 4,
            region@.len() == r_in.len(),
            r_in.len() >= HEADER_SIZE,
            i <= 4,
            region@[0] == 0,
            forall|j: int| 1 <= j < 1 + i ==> region@[j] == zero@[j - 1],
            forall|j: int| 1 + i <= j < region@.len() ==> region@[j] == r_in[j],
        decreases 4 - i,
    {
        region[1 + i] = zero[i];
        i = i + 1;
    }
    assert(region@ =~= splice(r_in.update(0, 0), 1, spec_u32_to_le_bytes(0)));
    (msgs, keys)
}

} // verus!
