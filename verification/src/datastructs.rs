//! Records exchanged through the shared-memory region and their byte layout.
//!
//! A record is laid out the way bincode (fixed-width integers, little endian,
//! 64-bit length prefixes) lays out an `InterData<STRING_SIZE>`:
//! the serial (4 bytes), the length 512 (8 bytes), `bytes1` (512 bytes),
//! the length 512 (8 bytes), `bytes2` (512 bytes).

use vstd::prelude::*;
use vstd::bytes::*;
use vstd::slice::*;

verus! {

/// Capacity of each of the two byte fields of a record.
pub const STRING_SIZE: usize = 512;
/// Number of messages exchanged in one run.
pub const MESSAGES_NUMBER: u32 = 2;
/// Name of the file that backs the shared-memory region.
pub const MEMFILE: &'static str = "memshare";
/// Size of the shared-memory region in bytes.
pub const MEMSIZE: usize = 52428800;
/// Longest verifying key that is carried (a SEC1 compressed point).
pub const SIGN_SIZE: usize = 33;

/// Size in bytes of one serialized record.
pub const RECORD_SIZE: usize = 1044;
/// Number of bytes a reader takes from the region to decode one record.
pub const RECORD_READ_SIZE: usize = 1048;

/// Offset of the length prefix of `bytes1` inside a record.
pub const LEN1_OFFSET: usize = 4;
/// Offset of `bytes1` inside a record.
pub const BYTES1_OFFSET: usize = 12;
/// Offset of the length prefix of `bytes2` inside a record.
pub const LEN2_OFFSET: usize = 524;
/// Offset of `bytes2` inside a record.
pub const BYTES2_OFFSET: usize = 532;

/// One message as stored in the shared-memory region: a serial number,
/// the signed message text (`bytes1`) and the verifying key (`bytes2`).
#[derive(Clone, Debug)]
pub struct InterData<const N: usize> {
    pub serial: u32,
    pub bytes1: [u8; N],
    pub bytes2: [u8; N],
}

/// The bytes of a record holding `serial`, `b1` and `b2`.
pub open spec fn encode_record(serial: u32, b1: Seq<u8>, b2: Seq<u8>) -> Seq<u8> {
    spec_u32_to_le_bytes(serial) + spec_u64_to_le_bytes(STRING_SIZE as u64) + b1
        + spec_u64_to_le_bytes(STRING_SIZE as u64) + b2
}

/// `s` holds, at its start, a record whose two length prefixes are both 512,
/// followed by at least the four bytes that a reader also takes.
pub open spec fn record_well_formed(s: Seq<u8>) -> bool {
    &&& s.len() >= RECORD_READ_SIZE
    &&& spec_u64_from_le_bytes(s.subrange(LEN1_OFFSET as int, BYTES1_OFFSET as int)) == STRING_SIZE
    &&& spec_u64_from_le_bytes(s.subrange(LEN2_OFFSET as int, BYTES2_OFFSET as int)) == STRING_SIZE
}

/// The serial stored at the start of `s`.
pub open spec fn record_serial(s: Seq<u8>) -> u32 {
    spec_u32_from_le_bytes(s.subrange(0, LEN1_OFFSET as int))
}

/// The `bytes1` field stored in the record at the start of `s`.
pub open spec fn record_bytes1(s: Seq<u8>) -> Seq<u8> {
    s.subrange(BYTES1_OFFSET as int, LEN2_OFFSET as int)
}

/// The `bytes2` field stored in the record at the start of `s`.
pub open spec fn record_bytes2(s: Seq<u8>) -> Seq<u8> {
    s.subrange(BYTES2_OFFSET as int, RECORD_SIZE as int)
}

/// `data` followed by zeros up to `STRING_SIZE` bytes.
pub open spec fn zero_padded(data: Seq<u8>) -> Seq<u8> {
    data + Seq::new((STRING_SIZE - data.len()) as nat, |i: int| 0u8)
}

/// What `serialize` writes, `deserialize` reads back: a record followed by
/// at least four more bytes is well formed and holds the serial and the two
/// fields it was made from.
pub proof fn lemma_record_round_trip(serial: u32, b1: Seq<u8>, b2: Seq<u8>, tail: Seq<u8>)
    requires
        b1.len() == STRING_SIZE,
        b2.len() == STRING_SIZE,
        tail.len() >= RECORD_READ_SIZE - RECORD_SIZE,
    ensures
        record_well_formed(encode_record(serial, b1, b2) + tail),
        record_serial(encode_record(serial, b1, b2) + tail) == serial,
        record_bytes1(encode_record(serial, b1, b2) + tail) == b1,
        record_bytes2(encode_record(serial, b1, b2) + tail) == b2,
{
    lemma_auto_spec_u32_to_from_le_bytes();
    lemma_auto_spec_u64_to_from_le_bytes();
    let s = encode_record(serial, b1, b2) + tail;
    let l = spec_u64_to_le_bytes(STRING_SIZE as u64);
    assert(s.subrange(0, 4) =~= spec_u32_to_le_bytes(serial));
    assert(s.subrange(4, 12) =~= l);
    assert(s.subrange(524, 532) =~= l);
    assert(s.subrange(12, 524) =~= b1);
    assert(s.subrange(532, 1044) =~= b2);
}

impl InterData<STRING_SIZE> {
    /// A record with serial 0 and both fields zeroed.
    pub fn new() -> (r: Self)
        ensures
            r.serial == 0,
            r.bytes1@ == Seq::new(STRING_SIZE as nat, |i: int| 0u8),
            r.bytes2@ == Seq::new(STRING_SIZE as nat, |i: int| 0u8),
    {
        let r = Self { serial: 0, bytes1: [0u8; 512], bytes2: [0u8; 512] };
        assert(r.bytes1@ =~= Seq::new(STRING_SIZE as nat, |i: int| 0u8));
        assert(r.bytes2@ =~= Seq::new(STRING_SIZE as nat, |i: int| 0u8));
        r
    }

    /// Sets the serial number; the fields are left as they are.
    pub fn increment_serial(&mut self, seriall: u32)
        ensures
            final(self).serial == seriall,
            final(self).bytes1 == old(self).bytes1,
            final(self).bytes2 == old(self).bytes2,
    {
        self.serial = seriall;
    }

    /// Copies `data` to the start of `bytes1`; the rest of `bytes1` keeps
    /// its contents. Data longer than `STRING_SIZE` is refused.
    pub fn assign_bytes0(&mut self, data: &[u8])
        requires
            data@.len() <= STRING_SIZE,
        ensures
            final(self).bytes1@ == data@ + old(self).bytes1@.subrange(data@.len() as int, STRING_SIZE as int),
            final(self).bytes2 == old(self).bytes2,
            final(self).serial == old(self).serial,
    {
        let n = data.len();
        let mut i: usize = 0;
        while i < n
            invariant
                n == data@.len(),
                n <= STRING_SIZE,
                i <= n,
                self.bytes1@.len() == STRING_SIZE,
                self.bytes2 == old(self).bytes2,
                self.serial == old(self).serial,
                forall|j: int| 0 <= j < i ==> self.bytes1@[j] == data@[j],
                forall|j: int| i <= j < STRING_SIZE ==> self.bytes1@[j] == old(self).bytes1@[j],
            decreases n - i,
        {
            self.bytes1[i] = data[i];
            i = i + 1;
        }
        assert(self.bytes1@ =~= data@ + old(self).bytes1@.subrange(data@.len() as int, STRING_SIZE as int));
    }

    /// Copies `data` to the start of `bytes2`; the rest of `bytes2` keeps
    /// its contents. Data longer than `STRING_SIZE` is refused.
    pub fn assign_bytes1(&mut self, data: &[u8])
        requires
            data@.len() <= STRING_SIZE,
        ensures
            final(self).bytes2@ == data@ + old(self).bytes2@.subrange(data@.len() as int, STRING_SIZE as int),
            final(self).bytes1 == old(self).bytes1,
            final(self).serial == old(self).serial,
    {
        let n = data.len();
        let mut i: usize = 0;
        while i < n
            invariant
                n == data@.len(),
                n <= STRING_SIZE,
                i <= n,
                self.bytes2@.len() == STRING_SIZE,
                self.bytes1 == old(self).bytes1,
                self.serial == old(self).serial,
                forall|j: int| 0 <= j < i ==> self.bytes2@[j] == data@[j],
                forall|j: int| i <= j < STRING_SIZE ==> self.bytes2@[j] == old(self).bytes2@[j],
            decreases n - i,
        {
            self.bytes2[i] = data[i];
            i = i + 1;
        }
        assert(self.bytes2@ =~= data@ + old(self).bytes2@.subrange(data@.len() as int, STRING_SIZE as int));
    }

    /// The record's bytes, laid out as bincode lays out the struct.
    pub fn serialize(&self) -> (r: Vec<u8>)
        ensures
            r@ == encode_record(self.serial, self.bytes1@, self.bytes2@),
            r@.len() == RECORD_SIZE,
    {
        let mut out = u32_to_le_bytes(self.serial);
        let mut len1 = u64_to_le_bytes(512u64);
        let mut body1 = slice_to_vec(self.bytes1.as_slice());
        let mut len2 = u64_to_le_bytes(512u64);
        let mut body2 = slice_to_vec(self.bytes2.as_slice());
        out.append(&mut len1);
        out.append(&mut body1);
        out.append(&mut len2);
        out.append(&mut body2);
        proof {
            lemma_auto_spec_u32_to_from_le_bytes();
            lemma_auto_spec_u64_to_from_le_bytes();
        }
        out
    }

    /// Reads a record from the start of `src`; a record whose length
    /// prefixes are not both 512 is refused.
    pub fn deserialize(src: &[u8]) -> (r: Self)
        requires
            record_well_formed(src@),
        ensures
            r.serial == record_serial(src@),
            r.bytes1@ == record_bytes1(src@),
            r.bytes2@ == record_bytes2(src@),
    {
        let serial = u32_from_le_bytes(slice_subrange(src, 0, 4));
        let mut b1 = [0u8; 512];
        let mut b2 = [0u8; 512];
        let mut i: usize = 0;
        while i < 512
            invariant
                src@.len() >= RECORD_READ_SIZE,
                i <= 512,
                b1@.len() == 512,
                b2@.len() == 512,
                forall|j: int| 0 <= j < i ==> b1@[j] == src@[BYTES1_OFFSET + j],
                forall|j: int| 0 <= j < i ==> b2@[j] == src@[BYTES2_OFFSET + j],
            decreases 512 - i,
        {
            b1[i] = src[BYTES1_OFFSET + i];
            b2[i] = src[BYTES2_OFFSET + i];
            i = i + 1;
        }
        assert(b1@ =~= record_bytes1(src@));
        assert(b2@ =~= record_bytes2(src@));
        Self { serial, bytes1: b1, bytes2: b2 }
    }
}

} // verus!
