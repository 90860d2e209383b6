//! The server: how it answers the client's requests, and how it stores the
//! messages it took from storage into the shared-memory region.

use vstd::prelude::*;
use vstd::utf8::encode_utf8;
use vstd::slice::slice_to_vec;
use crate::datastructs::STRING_SIZE;
use crate::shmem::{
    fill_fits, fill_sh_memory, lemma_fill_facts, record_offset, region_after_fills, region_count,
    write_complite, written_count, HEADER_SIZE,
};
use crate::datastructs::RECORD_SIZE;

verus! {

/// What the client asks for. On the wire `Connect` is 0 and `Sending` is 1.
#[derive(Debug, Clone, Copy, PartialEq, Eq, Structural)]
pub enum ClientCommand {
    Connect,
    Sending,
}

impl ClientCommand {
    /// The command with wire number `v`, if any.
    pub fn from_i32(v: i32) -> (r: Option<ClientCommand>)
        ensures
            v == 0 ==> r == Some(ClientCommand::Connect),
            v == 1 ==> r == Some(ClientCommand::Sending),
            v != 0 && v != 1 ==> r is None,
    {
        if v == 0 {
            Some(ClientCommand::Connect)
        } else if v == 1 {
            Some(ClientCommand::Sending)
        } else {
            None
        }
    }

    /// The wire number of the command.
    pub fn to_i32(self) -> (v: i32)
        ensures
            self == ClientCommand::Connect ==> v == 0,
            self == ClientCommand::Sending ==> v == 1,
    {
        match self {
            ClientCommand::Connect => 0,
            ClientCommand::Sending => 1,
        }
    }
}

/// The server's verdict on a request. On the wire `Proceed` is 0, `Okay` is 1
/// and `Error` is 2.
#[derive(Debug, Clone, Copy, PartialEq, Eq, Structural)]
pub enum StatusMsg {
    Proceed,
    Okay,
    Error,
}

impl StatusMsg {
    /// The status with wire number `v`, if any.
    pub fn from_i32(v: i32) -> (r: Option<StatusMsg>)
        ensures
            v == 0 ==> r == Some(StatusMsg::Proceed),
            v == 1 ==> r == Some(StatusMsg::Okay),
            v == 2 ==> r == Some(StatusMsg::Error),
            !(0 <= v <= 2) ==> r is None,
    {
        if v == 0 {
            Some(StatusMsg::Proceed)
        } else if v == 1 {
            Some(StatusMsg::Okay)
        } else if v == 2 {
            Some(StatusMsg::Error)
        } else {
            None
        }
    }

    /// The wire number of the status.
    pub fn to_i32(self) -> (v: i32)
        ensures
            self == StatusMsg::Proceed ==> v == 0,
            self == StatusMsg::Okay ==> v == 1,
            self == StatusMsg::Error ==> v == 2,
    {
        match self {
            StatusMsg::Proceed => 0,
            StatusMsg::Okay => 1,
            StatusMsg::Error => 2,
        }
    }
}

/// A point in time: whole seconds and nanoseconds since the Unix epoch.
#[derive(Debug, Clone, Copy, PartialEq, Eq, Structural)]
pub struct Timestamp {
    pub seconds: i64,
    pub nanos: i32,
}

/// A request of the client: a command number, the time it was made, an
/// optional payload (the name of the message stream) and a serial.
#[derive(Debug, PartialEq, Eq)]
pub struct ClientRequest {
    pub command: i32,
    pub timestamp: Option<Timestamp>,
    pub payload: Option<String>,
    pub serial: u32,
}

/// The server's answer, stamped with the time it was made.
#[derive(Debug, PartialEq, Eq)]
pub struct ServerResponse {
    pub server_answer: Option<String>,
    pub msg_status: StatusMsg,
    pub timestamp: Option<Timestamp>,
}

/// What the server does with a request: answer at once, or first take the
/// stored messages and write them to the region, then answer.
#[derive(Debug, PartialEq, Eq)]
pub enum ServerStep {
    Reply(ServerResponse),
    StoreThenReply(Option<String>),
}

/// The server of the transport interface.
#[derive(Debug, Default)]
pub struct RpcServiceServer {}

impl RpcServiceServer {
    /// Decides on a request: a `Connect` naming a stream is answered
    /// `Proceed`, one without a name `Error`; a `Sending` makes the server
    /// store the messages and then answer `Okay` with the stream name; an
    /// unknown command is answered `Error`. An answer given at once is
    /// stamped with `now`, the time the server read when it answered.
    pub fn establish_connection(&self, request: ClientRequest, now: Timestamp) -> (r: ServerStep)
        ensures
            request.command == 0 && request.payload is Some ==> r == ServerStep::Reply(
                ServerResponse { server_answer: None, msg_status: StatusMsg::Proceed, timestamp: Some(now) },
            ),
            request.command == 0 && request.payload is None ==> r == ServerStep::Reply(
                ServerResponse { server_answer: None, msg_status: StatusMsg::Error, timestamp: Some(now) },
            ),
            request.command == 1 ==> r == ServerStep::StoreThenReply(request.payload),
            request.command != 0 && request.command != 1 ==> r == ServerStep::Reply(
                ServerResponse { server_answer: None, msg_status: StatusMsg::Error, timestamp: Some(now) },
            ),
    {
        let name = request.payload;
        match ClientCommand::from_i32(request.command) {
            Some(ClientCommand::Connect) => {
                match name {
                    Some(_stream_name) => ServerStep::Reply(
                        ServerResponse { server_answer: None, msg_status: StatusMsg::Proceed, timestamp: Some(now) },
                    ),
                    None => ServerStep::Reply(
                        ServerResponse { server_answer: None, msg_status: StatusMsg::Error, timestamp: Some(now) },
                    ),
                }
            },
            Some(ClientCommand::Sending) => ServerStep::StoreThenReply(name),
            None => ServerStep::Reply(
                ServerResponse { server_answer: None, msg_status: StatusMsg::Error, timestamp: Some(now) },
            ),
        }
    }

    /// The answer once the messages are stored: `Okay` with the stream name,
    /// stamped with `now`.
    pub fn stored_reply(&self, name: Option<String>, now: Timestamp) -> (r: ServerResponse)
        ensures
            r == (ServerResponse { server_answer: name, msg_status: StatusMsg::Okay, timestamp: Some(now) }),
    {
        ServerResponse { server_answer: name, msg_status: StatusMsg::Okay, timestamp: Some(now) }
    }
}

/// The (message text, key) pairs as bytes.
pub open spec fn entries_bytes(entries: Seq<(String, Vec<u8>)>) -> Seq<(Seq<u8>, Seq<u8>)> {
    entries.map_values(|e: (String, Vec<u8>)| (encode_utf8(e.0@), e.1@))
}

/// Each pair fits in a record.
pub open spec fn pairs_fit(entries: Seq<(String, Vec<u8>)>) -> bool {
    forall|k: int|
        0 <= k < entries.len() ==> encode_utf8((#[trigger] entries[k]).0@).len() <= STRING_SIZE
            && entries[k].1@.len() <= STRING_SIZE
}

/// The messages fit: the region can take them after what it already counts,
/// and each message and key fits in a record.
pub open spec fn messages_fit(r: Seq<u8>, entries: Seq<(String, Vec<u8>)>) -> bool {
    &&& r.len() >= HEADER_SIZE
    &&& entries.len() > 0 ==> fill_fits(r)
    &&& record_offset(entries.len() as int) <= r.len()
    &&& entries.len() < u32::MAX
    &&& pairs_fit(entries)
}

/// Whether `store_messages` can store `entries` in the region.
pub fn messages_fit_region(region: &[u8], entries: &Vec<(String, Vec<u8>)>) -> (b: bool)
    ensures
        b == messages_fit(region@, entries@),
{
    let len = region.len();
    if len < HEADER_SIZE || entries.len() >= u32::MAX as usize {
        return false;
    }
    let n = entries.len();
    if n > len / RECORD_SIZE {
        assert(record_offset(n as int) > len) by (nonlinear_arith)
            requires
                n as int > len as int / RECORD_SIZE as int,
        ;
        return false;
    }
    assert((n as int) * RECORD_SIZE <= len) by (nonlinear_arith)
        requires
            n as int <= len as int / RECORD_SIZE as int,
    ;
    if HEADER_SIZE + n * RECORD_SIZE > len {
        return false;
    }
    if n > 0 {
        let count = written_count(region) as usize;
        if count >= len / RECORD_SIZE {
            assert(record_offset(count as int + 1) > len) by (nonlinear_arith)
                requires
                    count as int >= len as int / RECORD_SIZE as int,
            ;
            return false;
        }
        assert((count as int + 1) * RECORD_SIZE <= len) by (nonlinear_arith)
            requires
                (count as int) < len as int / RECORD_SIZE as int,
        ;
        if HEADER_SIZE + (count + 1) * RECORD_SIZE > len {
            return false;
        }
    }
    let mut k: usize = 0;
    while k < n
        invariant
            n == entries@.len(),
            k <= n,
            forall|j: int|
                0 <= j < k ==> encode_utf8((#[trigger] entries@[j]).0@).len() <= STRING_SIZE
                    && entries@[j].1@.len() <= STRING_SIZE,
        decreases n - k,
    {
        if entries[k].0.as_str().as_bytes().len() > STRING_SIZE || entries[k].1.len() > STRING_SIZE {
            return false;
        }
        k = k + 1;
    }
    true
}

/// Writes the messages taken from storage (when there were any) to the
/// region, message `k` with serial `k`, and then marks the region complete.
pub fn store_messages(region: &mut [u8], fetched: Option<Vec<(String, Vec<u8>)>>)
    requires
        fetched matches Some(entries) ==> messages_fit(old(region)@, entries@),
    ensures
        fetched is None ==> final(region)@ == old(region)@,
        fetched matches Some(entries) ==> final(region)@ == region_after_fills(
            old(region)@,
            entries_bytes(entries@),
        ).update(0, 1),
{
    let entries = match fetched {
        Some(entries) => entries,
        None => {
            return;
        },
    };
    let ghost r0 = region@;
    let ghost eb = entries_bytes(entries@);
    let mut j: usize = 0;
    while j < entries.len()
        invariant
            eb == entries_bytes(entries@),
            r0.len() >= HEADER_SIZE,
            entries@.len() > 0 ==> fill_fits(r0),
            record_offset(entries@.len() as int) <= r0.len(),
            entries@.len() < u32::MAX,
            pairs_fit(entries@),
            j <= entries@.len(),
            region@ == region_after_fills(r0, eb.take(j as int)),
            region@.len() == r0.len(),
            j > 0 ==> region_count(region@) == j,
        decreases entries@.len() - j,
    {
        let ghost before = region@;
        let name = entries[j].0.clone();
        let value = slice_to_vec(entries[j].1.as_slice());
        assert(fill_fits(before)) by {
            if j > 0 {
                assert(record_offset(j as int + 1) <= record_offset(entries@.len() as int));
            }
        }
        assert(eb[j as int] == (encode_utf8(name@), value@));
        proof {
            lemma_fill_facts(before, encode_utf8(name@), value@, j as u32);
        }
        fill_sh_memory(region, name, value, j as u32);
        assert(eb.take(j as int + 1).drop_last() =~= eb.take(j as int));
        j = j + 1;
    }
    assert(eb.take(entries@.len() as int) =~= eb);
    write_complite(region);
}

} // verus!
