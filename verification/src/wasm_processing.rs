//! Running the verification of received messages inside WebAssembly guests.
//!
//! The library builds the values handed to the guests, drives the host
//! through the calls (swapping the module half-way through a run), and counts
//! the valid answers; the caller turns values into MessagePack bytes and back.

use vstd::prelude::*;
use vstd::slice::slice_to_vec;
use vstd::utf8::encode_utf8;
use base64::Engine as _;
use crate::datastructs::{MESSAGES_NUMBER, SIGN_SIZE};
use crate::native_verification::{truncate_bytes, truncated, truncation_allowed};
use crate::serdes::{Operation, StatusFromWasm, StructSend, WasmDataRecv, WasmDataSend};
use crate::signatures::{schnorr_key_check, schnorr_key_parses};
use crate::wasm_lib::{lemma_events_split, module_after, served_calls, HostEvent, HostProvider, ServedCall, WasmHostError};

verus! {

/// Longest signature text handed to a verifying guest, in bytes.
pub const MSG_LIMIT: usize = 128;

/// Calls `String::truncate`, which (as std documents) keeps the first `n`
/// bytes, leaves a shorter string as it is, and panics when `n` is not on a
/// character boundary.
#[verifier::external_body]
pub(crate) fn string_truncate(s: &mut String, n: usize)
    requires
        truncation_allowed(encode_utf8(old(s)@), n as int),
    ensures
        encode_utf8(final(s)@) == truncated(encode_utf8(old(s)@), n as int),
{
    s.truncate(n)
}

/// Message `i` of a run is the `i`-th one counted from the end of what was
/// received.
pub open spec fn from_end<T>(s: Seq<T>, i: int) -> T {
    s[MESSAGES_NUMBER - 1 - i]
}

/// What is handed to the verifying guest for message `i`: the `i`-th
/// expected message, the signature text and key received `i`-th from the end,
/// cut to `MSG_LIMIT` and `SIGN_SIZE` bytes, id `i` and `Operation::One`.
pub open spec fn wasm_request_ok(
    req: WasmDataSend,
    signed: Seq<String>,
    keys: Seq<Vec<u8>>,
    right: Seq<String>,
    i: int,
) -> bool {
    &&& req.rmessage == right[i]
    &&& encode_utf8(req.smessage@) == truncated(encode_utf8(from_end(signed, i)@), MSG_LIMIT as int)
    &&& req.vkey@ == truncated(from_end(keys, i)@, SIGN_SIZE as int)
    &&& req.id == i
    &&& req.oper == Operation::One
}

/// Builds the `MESSAGES_NUMBER` values handed to the verifying guest.
pub fn build_wasm_requests(
    recv_sig_msg: Vec<String>,
    recv_ver_key: Vec<Vec<u8>>,
    right_messages: Vec<String>,
) -> (r: Vec<WasmDataSend>)
    requires
        recv_sig_msg@.len() == MESSAGES_NUMBER,
        recv_ver_key@.len() == MESSAGES_NUMBER,
        right_messages@.len() >= MESSAGES_NUMBER,
        forall|i: int|
            0 <= i < MESSAGES_NUMBER ==> truncation_allowed(
                encode_utf8(#[trigger] recv_sig_msg@[i]@),
                MSG_LIMIT as int,
            ),
    ensures
        r@.len() == MESSAGES_NUMBER,
        forall|i: int|
            0 <= i < MESSAGES_NUMBER ==> wasm_request_ok(
                #[trigger] r@[i],
                recv_sig_msg@,
                recv_ver_key@,
                right_messages@,
                i,
            ),
{
    let mut requests: Vec<WasmDataSend> = Vec::new();
    let mut i: usize = 0;
    let n = MESSAGES_NUMBER as usize;
    while i < n
        invariant
            n == MESSAGES_NUMBER,
            recv_sig_msg@.len() == MESSAGES_NUMBER,
            recv_ver_key@.len() == MESSAGES_NUMBER,
            right_messages@.len() >= MESSAGES_NUMBER,
            forall|j: int|
                0 <= j < MESSAGES_NUMBER ==> truncation_allowed(
                    encode_utf8(#[trigger] recv_sig_msg@[j]@),
                    MSG_LIMIT as int,
                ),
            i <= n,
            requests@.len() == i,
            forall|j: int|
                0 <= j < i ==> wasm_request_ok(
                    #[trigger] requests@[j],
                    recv_sig_msg@,
                    recv_ver_key@,
                    right_messages@,
                    j,
                ),
        decreases n - i,
    {
        let mut s_msg = recv_sig_msg[n - 1 - i].clone();
        string_truncate(&mut s_msg, MSG_LIMIT);
        let ver_key = slice_to_vec(truncate_bytes(recv_ver_key[n - 1 - i].as_slice(), SIGN_SIZE));
        let rmsg = right_messages[i].clone();
        requests.push(
            WasmDataSend {
                rmessage: rmsg,
                vkey: ver_key,
                smessage: s_msg,
                id: i as i32,
                oper: Operation::One,
            },
        );
        i = i + 1;
    }
    requests
}

/// The module is swapped right before the call for message `i` when `i` is
/// half the number of messages.
pub fn replaces_module_before(i: usize) -> (b: bool)
    ensures
        b == (i == MESSAGES_NUMBER / 2),
{
    i == (MESSAGES_NUMBER / 2) as usize
}

/// The bytes of each payload.
pub open spec fn payload_bytes(payloads: Seq<Vec<u8>>) -> Seq<Seq<u8>> {
    payloads.map_values(|p: Vec<u8>| p@)
}

/// The events of a run of `n` guest calls of `op`: call `i` hands over
/// `payloads[i]` and got `replies[i]`; with `swap == Some((at, m))`, a
/// successful swap to module `m` comes right before call `at`.
pub open spec fn run_events(
    op: Seq<char>,
    payloads: Seq<Seq<u8>>,
    replies: Seq<Seq<u8>>,
    swap: Option<(int, Seq<u8>)>,
    n: int,
) -> Seq<HostEvent>
    decreases n,
{
    if n <= 0 {
        Seq::empty()
    } else {
        let before = run_events(op, payloads, replies, swap, n - 1);
        let swapped = match swap {
            Some((at, m)) => if n - 1 == at {
                before.push(HostEvent::Replace { module: m, done: true })
            } else {
                before
            },
            None => before,
        };
        swapped.push(HostEvent::Call { op, payload: payloads[n - 1], reply: Some(replies[n - 1]) })
    }
}

/// The module that serves call `i` of a run that started on `start`: the
/// swapped-in module from call `at` on, `start` before.
pub open spec fn run_module(start: Option<Seq<u8>>, swap: Option<(int, Seq<u8>)>, i: int) -> Option<
    Seq<u8>,
> {
    match swap {
        Some((at, m)) => if 0 <= at <= i {
            Some(m)
        } else {
            start
        },
        None => start,
    }
}

/// A run's events depend only on the payloads and replies of its calls.
pub proof fn lemma_run_events_prefix(
    op: Seq<char>,
    p1: Seq<Seq<u8>>,
    r1: Seq<Seq<u8>>,
    p2: Seq<Seq<u8>>,
    r2: Seq<Seq<u8>>,
    swap: Option<(int, Seq<u8>)>,
    n: int,
)
    requires
        forall|j: int| 0 <= j < n ==> p1[j] == p2[j] && r1[j] == r2[j],
    ensures
        run_events(op, p1, r1, swap, n) == run_events(op, p2, r2, swap, n),
    decreases n,
{
    if n > 0 {
        lemma_run_events_prefix(op, p1, r1, p2, r2, swap, n - 1);
    }
}

/// In a run of `n` calls of `op` on a host that ran `start`, call `i` is
/// served by `run_module(start, swap, i)`, with payload `payloads[i]` and
/// reply `replies[i]`; after the run the host runs `run_module(start, swap,
/// n - 1)`.
pub proof fn lemma_run_served(
    start: Option<Seq<u8>>,
    op: Seq<char>,
    payloads: Seq<Seq<u8>>,
    replies: Seq<Seq<u8>>,
    swap: Option<(int, Seq<u8>)>,
    n: int,
)
    requires
        0 <= n,
    ensures
        module_after(start, run_events(op, payloads, replies, swap, n)) == run_module(start, swap, n - 1),
        served_calls(start, run_events(op, payloads, replies, swap, n)).len() == n,
        forall|i: int|
            0 <= i < n ==> #[trigger] served_calls(start, run_events(op, payloads, replies, swap, n))[i]
                == (ServedCall {
                module: run_module(start, swap, i),
                op,
                payload: payloads[i],
                reply: Some(replies[i]),
            }),
    decreases n,
{
    if n > 0 {
        lemma_run_served(start, op, payloads, replies, swap, n - 1);
        let before = run_events(op, payloads, replies, swap, n - 1);
        let all = run_events(op, payloads, replies, swap, n);
        let swapped = all.drop_last();
        match swap {
            Some((at, m)) => {
                if n - 1 == at {
                    assert(swapped == before.push(HostEvent::Replace { module: m, done: true }));
                    assert(swapped.drop_last() == before);
                } else {
                    assert(swapped == before);
                }
            },
            None => {
                assert(swapped == before);
            },
        }
        assert(served_calls(start, swapped) == served_calls(start, before));
        assert(module_after(start, swapped) == run_module(start, swap, n - 1));
    }
}

/// The host's events `all` are those of a run of `op` that stopped at call
/// `k`, after `prior`: the first `k` calls went through with `replies`, then
/// either the swap due right before call `k` failed, or the call `k` itself
/// failed (after the swap due there, if any, went through).
pub open spec fn run_failed_at(
    prior: Seq<HostEvent>,
    all: Seq<HostEvent>,
    op: Seq<char>,
    payloads: Seq<Seq<u8>>,
    replies: Seq<Seq<u8>>,
    swap: Option<(int, Seq<u8>)>,
    k: int,
) -> bool {
    let done = prior + run_events(op, payloads, replies, swap, k);
    let call_failed = HostEvent::Call { op, payload: payloads[k], reply: None };
    match swap {
        Some((at, m)) => if k == at {
            ||| all == done.push(HostEvent::Replace { module: m, done: false })
            ||| all == done.push(HostEvent::Replace { module: m, done: true }).push(call_failed)
        } else {
            all == done.push(call_failed)
        },
        None => all == done.push(call_failed),
    }
}

/// A run that stopped ended on a failed host step: its last event is a guest
/// call that got no reply or a swap that did not go through.
pub proof fn lemma_failed_run_ends_in_failure(
    prior: Seq<HostEvent>,
    all: Seq<HostEvent>,
    op: Seq<char>,
    payloads: Seq<Seq<u8>>,
    replies: Seq<Seq<u8>>,
    swap: Option<(int, Seq<u8>)>,
    k: int,
)
    requires
        run_failed_at(prior, all, op, payloads, replies, swap, k),
    ensures
        all.len() > 0,
        match all.last() {
            HostEvent::Call { reply, .. } => reply is None,
            HostEvent::Replace { done, .. } => !done,
        },
{
}

/// Calls the guest function `verify_message` with each payload in turn,
/// swapping the running module for `replacement` right before the call for
/// message `MESSAGES_NUMBER / 2`. Returns the guest's replies, one per payload,
/// or the first failure of the host; with no payloads the host is not called
/// and the answer is an empty list. On success, call `i` handed over
/// `payloads[i]` and got `replies[i]`, the calls before message
/// `MESSAGES_NUMBER / 2` were served by the module running at the start and
/// the calls from it on by `replacement`. On failure, the run stopped at a
/// call `k` whose swap or guest call failed, after the first `k` calls went
/// through; so when every host step succeeds the answer is `Ok`.
pub fn process_in_wasmtime_with_replacing(
    host: &mut HostProvider,
    payloads: &Vec<Vec<u8>>,
    replacement: &[u8],
) -> (r: Result<Vec<Vec<u8>>, WasmHostError>)
    ensures
        final(host).started_module() == old(host).started_module(),
        old(host).events().len() <= final(host).events().len(),
        final(host).events().subrange(0, old(host).events().len() as int) == old(host).events(),
        payloads@.len() == 0 ==> (r matches Ok(replies) && replies@.len() == 0),
        r is Err ==> exists|k: int, rs: Seq<Seq<u8>>|
            0 <= k < payloads@.len() && rs.len() == k && #[trigger] run_failed_at(
                old(host).events(),
                final(host).events(),
                "verify_message"@,
                payload_bytes(payloads@),
                rs,
                Some(((MESSAGES_NUMBER / 2) as int, replacement@)),
                k,
            ),
        r matches Ok(replies) ==> {
            let run = run_events(
                "verify_message"@,
                payload_bytes(payloads@),
                payload_bytes(replies@),
                Some(((MESSAGES_NUMBER / 2) as int, replacement@)),
                payloads@.len() as int,
            );
            &&& replies@.len() == payloads@.len()
            &&& final(host).events() == old(host).events() + run
            &&& final(host).current_module() == if payloads@.len() > MESSAGES_NUMBER / 2 {
                Some(replacement@)
            } else {
                old(host).current_module()
            }
            &&& served_calls(old(host).current_module(), run).len() == payloads@.len()
            &&& forall|i: int|
                0 <= i < payloads@.len() ==> #[trigger] served_calls(old(host).current_module(), run)[i]
                    == (ServedCall {
                    module: if i < MESSAGES_NUMBER / 2 {
                        old(host).current_module()
                    } else {
                        Some(replacement@)
                    },
                    op: "verify_message"@,
                    payload: payloads@[i]@,
                    reply: Some(replies@[i]@),
                })
        },
{
    let ghost start_events = host.events();
    let ghost swap = Some(((MESSAGES_NUMBER / 2) as int, replacement@));
    let mut replies: Vec<Vec<u8>> = Vec::new();
    let mut i: usize = 0;
    while i < payloads.len()
        invariant
            i <= payloads@.len(),
            replies@.len() == i,
            swap == Some(((MESSAGES_NUMBER / 2) as int, replacement@)),
            host.started_module() == old(host).started_module(),
            start_events == old(host).events(),
            host.events() == start_events + run_events(
                "verify_message"@,
                payload_bytes(payloads@),
                payload_bytes(replies@),
                swap,
                i as int,
            ),
        decreases payloads@.len() - i,
    {
        let ghost before = host.events();
        if replaces_module_before(i) {
            let done = host.execute_replace_module(replacement);
            if let Err(e) = done {
                proof {
                    assert(host.events().subrange(0, start_events.len() as int) == start_events);
                    assert(run_failed_at(
                        start_events,
                        host.events(),
                        "verify_message"@,
                        payload_bytes(payloads@),
                        payload_bytes(replies@),
                        swap,
                        i as int,
                    ));
                }
                return Err(e);
            }
        }
        let ghost after_swap = host.events();
        let call = host.execute_func_call("verify_message", payloads[i].as_slice());
        match call {
            Ok(reply) => {
                let ghost old_replies = replies@;
                replies.push(reply);
                proof {
                    lemma_run_events_prefix(
                        "verify_message"@,
                        payload_bytes(payloads@),
                        payload_bytes(old_replies),
                        payload_bytes(payloads@),
                        payload_bytes(replies@),
                        swap,
                        i as int,
                    );
                    let run = run_events(
                        "verify_message"@,
                        payload_bytes(payloads@),
                        payload_bytes(replies@),
                        swap,
                        i + 1,
                    );
                    let prev = run_events(
                        "verify_message"@,
                        payload_bytes(payloads@),
                        payload_bytes(replies@),
                        swap,
                        i as int,
                    );
                    if i == MESSAGES_NUMBER / 2 {
                        assert(run == prev.push(HostEvent::Replace { module: replacement@, done: true }).push(
                            HostEvent::Call {
                                op: "verify_message"@,
                                payload: payloads@[i as int]@,
                                reply: Some(reply@),
                            },
                        ));
                    } else {
                        assert(run == prev.push(
                            HostEvent::Call {
                                op: "verify_message"@,
                                payload: payloads@[i as int]@,
                                reply: Some(reply@),
                            },
                        ));
                    }
                    assert(host.events() == start_events + run);
                }
            },
            Err(e) => {
                proof {
                    assert(host.events().subrange(0, start_events.len() as int) == start_events);
                    assert(run_failed_at(
                        start_events,
                        host.events(),
                        "verify_message"@,
                        payload_bytes(payloads@),
                        payload_bytes(replies@),
                        swap,
                        i as int,
                    ));
                }
                return Err(e);
            },
        }
        i = i + 1;
    }
    proof {
        let run = run_events(
            "verify_message"@,
            payload_bytes(payloads@),
            payload_bytes(replies@),
            swap,
            payloads@.len() as int,
        );
        lemma_events_split(Some(old(host).started_module()), start_events, run);
        lemma_run_served(
            old(host).current_module(),
            "verify_message"@,
            payload_bytes(payloads@),
            payload_bytes(replies@),
            swap,
            payloads@.len() as int,
        );
        assert(host.events().subrange(0, start_events.len() as int) == start_events);
    }
    Ok(replies)
}

/// The number of replies in `replies[0..n]` that report a valid signature.
pub open spec fn valid_count(replies: Seq<WasmDataRecv>, n: int) -> nat
    decreases n,
{
    if n <= 0 {
        0
    } else if replies[n - 1].status == StatusFromWasm::Valid {
        valid_count(replies, n - 1) + 1
    } else {
        valid_count(replies, n - 1)
    }
}

/// The replies that report a valid signature, in order.
pub open spec fn valid_replies(replies: Seq<WasmDataRecv>) -> Seq<WasmDataRecv> {
    replies.filter(|x: WasmDataRecv| x.status == StatusFromWasm::Valid)
}

/// Counting the first `n` replies keeps exactly those among them that report
/// a valid signature.
pub proof fn lemma_valid_count_is_filter(replies: Seq<WasmDataRecv>, n: int)
    requires
        0 <= n <= replies.len(),
    ensures
        valid_count(replies, n) == valid_replies(replies.take(n)).len(),
    decreases n,
{
    reveal(Seq::filter);
    let pred = |x: WasmDataRecv| x.status == StatusFromWasm::Valid;
    if n == 0 {
        assert(replies.take(0).len() == 0);
        assert(replies.take(0).filter(pred) == replies.take(0));
    } else {
        lemma_valid_count_is_filter(replies, n - 1);
        let t = replies.take(n);
        assert(t.drop_last() =~= replies.take(n - 1));
        assert(t.last() == replies[n - 1]);
        assert(t.filter(pred) == if pred(t.last()) {
            t.drop_last().filter(pred).push(t.last())
        } else {
            t.drop_last().filter(pred)
        });
    }
}

/// The count of no replies is 0, and one more reply adds one exactly when it
/// reports a valid signature: every valid reply is counted, the last one too.
pub proof fn lemma_valid_count_push(replies: Seq<WasmDataRecv>, reply: WasmDataRecv)
    ensures
        valid_count(Seq::<WasmDataRecv>::empty(), 0) == 0,
        valid_count(replies.push(reply), replies.len() + 1int) == valid_count(replies, replies.len() as int)
            + if reply.status == StatusFromWasm::Valid {
            1int
        } else {
            0int
        },
{
    reveal(Seq::filter);
    let pred = |x: WasmDataRecv| x.status == StatusFromWasm::Valid;
    let longer = replies.push(reply);
    assert(valid_count(Seq::<WasmDataRecv>::empty(), 0) == 0);
    lemma_valid_count_is_filter(longer, longer.len() as int);
    lemma_valid_count_is_filter(replies, replies.len() as int);
    assert(longer.take(longer.len() as int) =~= longer);
    assert(replies.take(replies.len() as int) =~= replies);
    assert(longer.drop_last() =~= replies);
    assert(longer.last() == reply);
    assert(longer.filter(pred) == if pred(reply) {
        replies.filter(pred).push(reply)
    } else {
        replies.filter(pred)
    });
}

/// Counts the replies that report a valid signature.
pub fn count_valid(replies: &Vec<WasmDataRecv>) -> (r: usize)
    ensures
        r == valid_count(replies@, replies@.len() as int),
        r == valid_replies(replies@).len(),
{
    let mut count: usize = 0;
    let mut i: usize = 0;
    while i < replies.len()
        invariant
            i <= replies@.len(),
            count == valid_count(replies@, i as int),
            count <= i,
        decreases replies@.len() - i,
    {
        if replies[i].status == StatusFromWasm::Valid {
            count = count + 1;
        }
        i = i + 1;
    }
    proof {
        lemma_valid_count_is_filter(replies@, replies@.len() as int);
        assert(replies@.take(replies@.len() as int) =~= replies@);
    }
    count
}

/// Whether `base64::engine::general_purpose::STANDARD.decode` accepts `text`.
pub uninterp spec fn base64_decodes(text: Seq<u8>) -> bool;

/// Calls `base64::engine::general_purpose::STANDARD.decode` and reports
/// whether it succeeded.
#[verifier::external_body]
pub(crate) fn base64_check(text: &[u8]) -> (r: bool)
    ensures
        r == base64_decodes(text@),
{
    base64::engine::general_purpose::STANDARD.decode(text).is_ok()
}

/// The inputs of the filler's run: message `i` (counted from the end) has a
/// key whose first `SIGN_SIZE` bytes are a Schnorr verifying key and a
/// signature text in standard base64.
pub open spec fn filler_inputs_ok(signed: Seq<String>, keys: Seq<Vec<u8>>) -> bool {
    &&& signed.len() == MESSAGES_NUMBER
    &&& keys.len() == MESSAGES_NUMBER
    &&& forall|i: int| 0 <= i < MESSAGES_NUMBER ==> #[trigger] filler_item_ok(signed, keys, i)
}

/// Message `i` of the filler's run: the first `SIGN_SIZE` bytes of its key
/// are a Schnorr verifying key and its signature text is standard base64.
pub open spec fn filler_item_ok(signed: Seq<String>, keys: Seq<Vec<u8>>, i: int) -> bool {
    &&& truncated(keys[i]@, SIGN_SIZE as int).len() == 32
    &&& schnorr_key_parses(truncated(keys[i]@, SIGN_SIZE as int))
    &&& base64_decodes(encode_utf8(signed[i]@))
}

/// Builds the values the filler hands to the guest function
/// `serdes_example`: the signature text received `i`-th from the end, id 0,
/// `Operation::Two`.
pub fn build_filler_requests(recv_sig_msg: Vec<String>, recv_ver_key: Vec<Vec<u8>>) -> (r: Vec<StructSend>)
    requires
        filler_inputs_ok(recv_sig_msg@, recv_ver_key@),
    ensures
        r@.len() == MESSAGES_NUMBER,
        forall|i: int|
            0 <= i < MESSAGES_NUMBER ==> {
                &&& (#[trigger] r@[i]).payload == from_end(recv_sig_msg@, i)
                &&& r@[i].id == 0
                &&& r@[i].oper == Operation::Two
            },
{
    let mut requests: Vec<StructSend> = Vec::new();
    let mut i: usize = 0;
    let n = MESSAGES_NUMBER as usize;
    while i < n
        invariant
            n == MESSAGES_NUMBER,
            recv_sig_msg@.len() == MESSAGES_NUMBER,
            i <= n,
            requests@.len() == i,
            forall|j: int|
                0 <= j < i ==> {
                    &&& (#[trigger] requests@[j]).payload == from_end(recv_sig_msg@, j)
                    &&& requests@[j].id == 0
                    &&& requests@[j].oper == Operation::Two
                },
        decreases n - i,
    {
        let s_msg = recv_sig_msg[n - 1 - i].clone();
        requests.push(StructSend { payload: s_msg, id: 0, oper: Operation::Two });
        i = i + 1;
    }
    requests
}

/// Checks what the filler's run requires before building its requests (each
/// key parses, each signature text is base64) and builds them; `None` when
/// one of them fails.
pub fn checked_filler_requests(recv_sig_msg: Vec<String>, recv_ver_key: Vec<Vec<u8>>) -> (r: Option<Vec<StructSend>>)
    ensures
        r is Some <==> filler_inputs_ok(recv_sig_msg@, recv_ver_key@),
        r matches Some(reqs) ==> reqs@.len() == MESSAGES_NUMBER && forall|i: int|
            0 <= i < MESSAGES_NUMBER ==> (#[trigger] reqs@[i]).payload == from_end(recv_sig_msg@, i),
{
    if recv_sig_msg.len() != MESSAGES_NUMBER as usize || recv_ver_key.len() != MESSAGES_NUMBER as usize {
        return None;
    }
    let mut i: usize = 0;
    let n = MESSAGES_NUMBER as usize;
    while i < n
        invariant
            n == MESSAGES_NUMBER,
            recv_sig_msg@.len() == MESSAGES_NUMBER,
            recv_ver_key@.len() == MESSAGES_NUMBER,
            i <= n,
            forall|j: int| 0 <= j < i ==> #[trigger] filler_item_ok(recv_sig_msg@, recv_ver_key@, j),
        decreases n - i,
    {
        let key = truncate_bytes(recv_ver_key[i].as_slice(), SIGN_SIZE);
        assert(key@ == truncated(recv_ver_key@[i as int]@, SIGN_SIZE as int));
        if key.len() != 32 || !schnorr_key_check(key) {
            assert(!filler_item_ok(recv_sig_msg@, recv_ver_key@, i as int));
            return None;
        }
        let text = recv_sig_msg[i].as_str().as_bytes();
        assert(text@ == encode_utf8(recv_sig_msg@[i as int]@));
        if !base64_check(text) {
            assert(!filler_item_ok(recv_sig_msg@, recv_ver_key@, i as int));
            return None;
        }
        assert(filler_item_ok(recv_sig_msg@, recv_ver_key@, i as int));
        i = i + 1;
    }
    Some(build_filler_requests(recv_sig_msg, recv_ver_key))
}

/// Calls the guest function `serdes_example` with each payload in turn and
/// returns the guest's replies, one per payload, or the first failure of the
/// host; with no payloads the host is not called and the answer is an empty
/// list. On success, call `i` handed over `payloads[i]`, got `replies[i]` and
/// was served by the module running at the start. On failure, the run
/// stopped at a call `k` that failed, after the first `k` calls went through;
/// so when every guest call succeeds the answer is `Ok`.
pub fn process_in_wasm(host: &mut HostProvider, payloads: &Vec<Vec<u8>>) -> (r: Result<Vec<Vec<u8>>, WasmHostError>)
    ensures
        final(host).started_module() == old(host).started_module(),
        old(host).events().len() <= final(host).events().len(),
        final(host).events().subrange(0, old(host).events().len() as int) == old(host).events(),
        payloads@.len() == 0 ==> (r matches Ok(replies) && replies@.len() == 0),
        r is Err ==> exists|k: int, rs: Seq<Seq<u8>>|
            0 <= k < payloads@.len() && rs.len() == k && #[trigger] run_failed_at(
                old(host).events(),
                final(host).events(),
                "serdes_example"@,
                payload_bytes(payloads@),
                rs,
                None,
                k,
            ),
        r matches Ok(replies) ==> {
            let run = run_events(
                "serdes_example"@,
                payload_bytes(payloads@),
                payload_bytes(replies@),
                None,
                payloads@.len() as int,
            );
            &&& replies@.len() == payloads@.len()
            &&& final(host).events() == old(host).events() + run
            &&& final(host).current_module() == old(host).current_module()
            &&& served_calls(old(host).current_module(), run).len() == payloads@.len()
            &&& forall|i: int|
                0 <= i < payloads@.len() ==> #[trigger] served_calls(old(host).current_module(), run)[i]
                    == (ServedCall {
                    module: old(host).current_module(),
                    op: "serdes_example"@,
                    payload: payloads@[i]@,
                    reply: Some(replies@[i]@),
                })
        },
{
    let ghost start_events = host.events();
    let mut replies: Vec<Vec<u8>> = Vec::new();
    let mut i: usize = 0;
    while i < payloads.len()
        invariant
            i <= payloads@.len(),
            replies@.len() == i,
            host.started_module() == old(host).started_module(),
            start_events == old(host).events(),
            host.events() == start_events + run_events(
                "serdes_example"@,
                payload_bytes(payloads@),
                payload_bytes(replies@),
                None,
                i as int,
            ),
        decreases payloads@.len() - i,
    {
        let call = host.execute_func_call("serdes_example", payloads[i].as_slice());
        match call {
            Ok(reply) => {
                let ghost old_replies = replies@;
                replies.push(reply);
                proof {
                    lemma_run_events_prefix(
                        "serdes_example"@,
                        payload_bytes(payloads@),
                        payload_bytes(old_replies),
                        payload_bytes(payloads@),
                        payload_bytes(replies@),
                        None,
                        i as int,
                    );
                    let run = run_events(
                        "serdes_example"@,
                        payload_bytes(payloads@),
                        payload_bytes(replies@),
                        None,
                        i + 1,
                    );
                    let prev = run_events(
                        "serdes_example"@,
                        payload_bytes(payloads@),
                        payload_bytes(replies@),
                        None,
                        i as int,
                    );
                    assert(run == prev.push(
                        HostEvent::Call {
                            op: "serdes_example"@,
                            payload: payloads@[i as int]@,
                            reply: Some(reply@),
                        },
                    ));
                    assert(host.events() == start_events + run);
                }
            },
            Err(e) => {
                proof {
                    assert(host.events().subrange(0, start_events.len() as int) == start_events);
                    assert(run_failed_at(
                        start_events,
                        host.events(),
                        "serdes_example"@,
                        payload_bytes(payloads@),
                        payload_bytes(replies@),
                        None,
                        i as int,
                    ));
                }
                return Err(e);
            },
        }
        i = i + 1;
    }
    proof {
        lemma_events_split(
            Some(old(host).started_module()),
            start_events,
            run_events(
                "serdes_example"@,
                payload_bytes(payloads@),
                payload_bytes(replies@),
                None,
                payloads@.len() as int,
            ),
        );
        lemma_run_served(
            old(host).current_module(),
            "serdes_example"@,
            payload_bytes(payloads@),
            payload_bytes(replies@),
            None,
            payloads@.len() as int,
        );
        assert(host.events().subrange(0, start_events.len() as int) == start_events);
    }
    Ok(replies)
}

} // verus!
