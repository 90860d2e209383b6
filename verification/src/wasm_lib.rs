//! A waPC host running WebAssembly modules on wasmtime.

use vstd::prelude::*;
use wapc::WapcHost;
use wasmtime_provider::{WasmtimeEngineProvider, WasmtimeEngineProviderBuilder};

verus! {

#[verifier::external_type_specification]
#[verifier::external_body]
pub struct ExWapcHost(wapc::WapcHost);

#[verifier::external_type_specification]
#[verifier::external_body]
pub struct ExWasmtimeEngineProvider(wasmtime_provider::WasmtimeEngineProvider);

#[verifier::external_type_specification]
#[verifier::external_body]
pub struct ExWapcError(wapc::errors::Error);

#[verifier::external_type_specification]
#[verifier::external_body]
pub struct ExProviderError(wasmtime_provider::errors::Error);

/// The wasmtime engine could not be built from the module's bytes; `text` is
/// what the engine reported.
#[derive(Debug, Clone)]
pub struct EngineError {
    pub text: String,
}

/// The waPC host failed: it could not start, a guest call failed, or a
/// module could not be swapped in; `text` is what the host reported.
#[derive(Debug, Clone)]
pub struct WasmHostError {
    pub text: String,
}

/// The text of a waPC error (its `to_string()`). It is only carried to the
/// caller, so nothing is claimed of it.
#[verifier::external_body]
fn wapc_error_text(e: &wapc::errors::Error) -> String {
    e.to_string()
}

/// The text of an engine error (its `to_string()`). It is only carried to
/// the caller, so nothing is claimed of it.
#[verifier::external_body]
fn provider_error_text(e: &wasmtime_provider::errors::Error) -> String {
    e.to_string()
}

/// Calls `WasmtimeEngineProviderBuilder::new().module_bytes(..).build()`.
/// Whether the build succeeds depends on the module and on the machine
/// (the engine compiles the module), so nothing is claimed of the result.
#[verifier::external_body]
fn build_engine_provider(module_bytes: &[u8]) -> Result<
    WasmtimeEngineProvider,
    wasmtime_provider::errors::Error,
> {
    WasmtimeEngineProviderBuilder::new().module_bytes(module_bytes).build()
}

/// Calls `WapcHost::new` with the engine and a host callback that answers
/// every guest call with `host_callback`. Starting the guest runs its code,
/// so nothing is claimed of the result.
#[verifier::external_body]
fn new_wapc_host(engine: Box<WasmtimeEngineProvider>) -> Result<WapcHost, wapc::errors::Error> {
    WapcHost::new(engine, Some(Box::new(|id, bd, ns, op, payload| Ok(host_callback(id, bd, ns, op, payload)))))
}

/// Calls `WapcHost::call` on the host with `op` and `payload`. The reply is
/// whatever the guest computes, so nothing is claimed of it beyond that the
/// host's record gains one call event holding the operation and payload
/// handed over and, when the call succeeded, the reply that came back.
#[verifier::external_body]
fn wapc_call(host: &mut HostProvider, op: &str, payload: &[u8]) -> (r: Result<Vec<u8>, wapc::errors::Error>)
    ensures
        final(host).started_module() == old(host).started_module(),
        final(host).events() == old(host).events().push(
            HostEvent::Call { op: op@, payload: payload@, reply: reply_of(r) },
        ),
{
    host.host.call(op, payload)
}

/// Calls `WapcHost::replace_module` on the host with `module`. Compiling the
/// new module depends on the module and the machine, so whether it succeeds
/// is not claimed; the host's record gains one replace event holding the
/// module handed over and whether the swap succeeded.
#[verifier::external_body]
fn wapc_replace_module(host: &mut HostProvider, module: &[u8]) -> (r: Result<(), wapc::errors::Error>)
    ensures
        final(host).started_module() == old(host).started_module(),
        final(host).events() == old(host).events().push(
            HostEvent::Replace { module: module@, done: r is Ok },
        ),
{
    host.host.replace_module(module)
}

/// The host's answer to a call that a guest makes back into the host: always
/// an empty payload.
pub fn host_callback(id: u64, bd: &str, ns: &str, op: &str, payload: &[u8]) -> (r: Vec<u8>)
    ensures
        r@ == Seq::<u8>::empty(),
{
    Vec::new()
}

/// A wasmtime engine loaded with one module.
pub struct Engine {
    internal: Box<WasmtimeEngineProvider>,
    module: Ghost<Seq<u8>>,
}

impl Engine {
    /// The bytes of the module the engine was built from.
    pub closed spec fn module_bytes(self) -> Seq<u8> {
        self.module@
    }

    /// Builds an engine for the module in `module_bytes`; fails when wasmtime
    /// refuses the module. An engine that comes back holds that module.
    pub fn new(module_bytes: &[u8]) -> (r: Result<Self, EngineError>)
        ensures
            r matches Ok(e) ==> e.module_bytes() == module_bytes@,
    {
        match build_engine_provider(module_bytes) {
            Ok(provider) => Ok(Self { internal: Box::new(provider), module: Ghost(module_bytes@) }),
            Err(e) => Err(EngineError { text: provider_error_text(&e) }),
        }
    }
}

/// What happened on a host, in order: a guest call (the operation and
/// payload handed over, and the reply when the call succeeded) or a module
/// swap (the module handed over, and whether the swap succeeded).
pub enum HostEvent {
    Call { op: Seq<char>, payload: Seq<u8>, reply: Option<Seq<u8>> },
    Replace { module: Seq<u8>, done: bool },
}

/// The reply recorded for a guest call that returned `r`.
pub open spec fn reply_of<E>(r: Result<Vec<u8>, E>) -> Option<Seq<u8>> {
    match r {
        Ok(v) => Some(v@),
        Err(_) => None,
    }
}

/// The module a host runs after `events`, when it ran `start` before them:
/// the module of the last successful swap; unknown (`None`) after a swap that
/// failed, since a failed swap may leave the engine half replaced.
pub open spec fn module_after(start: Option<Seq<u8>>, events: Seq<HostEvent>) -> Option<Seq<u8>>
    decreases events.len(),
{
    if events.len() == 0 {
        start
    } else {
        match events.last() {
            HostEvent::Replace { module, done } => if done {
                Some(module)
            } else {
                None
            },
            HostEvent::Call { .. } => module_after(start, events.drop_last()),
        }
    }
}

/// A guest call as the host served it: the module that ran it (`None` when
/// unknown), the operation, the payload and the reply.
pub struct ServedCall {
    pub module: Option<Seq<u8>>,
    pub op: Seq<char>,
    pub payload: Seq<u8>,
    pub reply: Option<Seq<u8>>,
}

/// The guest calls among `events`, in order, each with the module that
/// served it, on a host that ran `start` before them.
pub open spec fn served_calls(start: Option<Seq<u8>>, events: Seq<HostEvent>) -> Seq<ServedCall>
    decreases events.len(),
{
    if events.len() == 0 {
        Seq::empty()
    } else {
        let before = served_calls(start, events.drop_last());
        match events.last() {
            HostEvent::Call { op, payload, reply } => before.push(
                ServedCall { module: module_after(start, events.drop_last()), op, payload, reply },
            ),
            HostEvent::Replace { .. } => before,
        }
    }
}

/// A waPC host that runs a guest module.
pub struct HostProvider {
    host: WapcHost,
    started_with: Ghost<Seq<u8>>,
    log: Ghost<Seq<HostEvent>>,
}

impl HostProvider {
    /// The bytes of the module the host was started with.
    pub closed spec fn started_module(self) -> Seq<u8> {
        self.started_with@
    }

    /// Every guest call and module swap made on the host since it started,
    /// in order.
    pub closed spec fn events(self) -> Seq<HostEvent> {
        self.log@
    }

    /// The module the host runs now (`None` when a failed swap left it
    /// unknown).
    pub open spec fn current_module(self) -> Option<Seq<u8>> {
        module_after(Some(self.started_module()), self.events())
    }

    /// Starts a waPC host on the engine. A host that comes back runs the
    /// engine's module and has served nothing yet.
    pub fn assign(engine: Engine) -> (r: Result<HostProvider, WasmHostError>)
        ensures
            r matches Ok(h) ==> h.started_module() == engine.module_bytes() && h.events()
                == Seq::<HostEvent>::empty(),
    {
        let ghost module = engine.module_bytes();
        match new_wapc_host(engine.internal) {
            Ok(host) => Ok(Self { host, started_with: Ghost(module), log: Ghost(Seq::empty()) }),
            Err(e) => Err(WasmHostError { text: wapc_error_text(&e) }),
        }
    }

    /// Calls the guest function `func_name` with the payload `ser_data`, on
    /// the module the host runs now. The call is added to the host's events,
    /// with the reply that is returned.
    pub fn execute_func_call(&mut self, func_name: &str, ser_data: &[u8]) -> (r: Result<Vec<u8>, WasmHostError>)
        ensures
            final(self).started_module() == old(self).started_module(),
            final(self).events() == old(self).events().push(
                HostEvent::Call {
                    op: func_name@,
                    payload: ser_data@,
                    reply: match r {
                        Ok(v) => Some(v@),
                        Err(_) => None,
                    },
                },
            ),
            final(self).current_module() == old(self).current_module(),
    {
        let r = wapc_call(self, func_name, ser_data);
        proof {
            assert(self.events().drop_last() == old(self).events());
        }
        match r {
            Ok(reply) => Ok(reply),
            Err(e) => Err(WasmHostError { text: wapc_error_text(&e) }),
        }
    }

    /// Swaps the running module for the one in `mod_bytes`. The swap is added
    /// to the host's events; after a successful swap the host runs
    /// `mod_bytes`, after a failed one the running module is unknown.
    pub fn execute_replace_module(&mut self, mod_bytes: &[u8]) -> (r: Result<(), WasmHostError>)
        ensures
            final(self).started_module() == old(self).started_module(),
            final(self).events() == old(self).events().push(
                HostEvent::Replace { module: mod_bytes@, done: r is Ok },
            ),
            r is Ok ==> final(self).current_module() == Some(mod_bytes@),
            r is Err ==> final(self).current_module() is None,
    {
        match wapc_replace_module(self, mod_bytes) {
            Ok(()) => Ok(()),
            Err(e) => Err(WasmHostError { text: wapc_error_text(&e) }),
        }
    }
}

/// A host's record splits at any point: after `a` then `b`, the host runs
/// what it runs after `b` started from where `a` left it, and the calls it
/// served are those of `a` followed by those of `b` served from there.
pub proof fn lemma_events_split(start: Option<Seq<u8>>, a: Seq<HostEvent>, b: Seq<HostEvent>)
    ensures
        module_after(start, a + b) == module_after(module_after(start, a), b),
        served_calls(start, a + b) == served_calls(start, a) + served_calls(module_after(start, a), b),
    decreases b.len(),
{
    if b.len() == 0 {
        assert(a + b == a);
        assert(served_calls(start, a) + Seq::<ServedCall>::empty() == served_calls(start, a));
    } else {
        let shorter = b.drop_last();
        lemma_events_split(start, a, shorter);
        assert((a + b).drop_last() == a + shorter);
        assert((a + b).last() == b.last());
        let mid = module_after(start, a);
        match b.last() {
            HostEvent::Call { op, payload, reply } => {
                let c = ServedCall { module: module_after(mid, shorter), op, payload, reply };
                assert(served_calls(start, a) + served_calls(mid, shorter).push(c) =~= (
                served_calls(start, a) + served_calls(mid, shorter)).push(c));
            },
            HostEvent::Replace { .. } => {},
        }
    }
}

/// After a successful swap to `module`, every guest call made before the next
/// swap is served by `module`.
pub proof fn lemma_swap_serves_later_calls(
    start: Option<Seq<u8>>,
    before: Seq<HostEvent>,
    module: Seq<u8>,
    after: Seq<HostEvent>,
)
    requires
        forall|i: int| 0 <= i < after.len() ==> (#[trigger] after[i]) is Call,
    ensures
        ({
            let all = before.push(HostEvent::Replace { module, done: true }) + after;
            let earlier = served_calls(start, before);
            &&& served_calls(start, all).len() == earlier.len() + after.len()
            &&& served_calls(start, all).subrange(0, earlier.len() as int) == earlier
            &&& forall|i: int|
                earlier.len() <= i < served_calls(start, all).len() ==> (#[trigger] served_calls(
                    start,
                    all,
                )[i]).module == Some(module)
        }),
    decreases after.len(),
{
    let head = before.push(HostEvent::Replace { module, done: true });
    if after.len() == 0 {
        assert(head + after == head);
        assert(head.drop_last() == before);
    } else {
        let shorter = after.drop_last();
        lemma_swap_serves_later_calls(start, before, module, shorter);
        let all = head + after;
        assert(all.drop_last() == head + shorter);
        assert(all.last() == after.last());
        lemma_module_after_calls(start, before, module, shorter);
    }
}

/// Guest calls leave the running module as it is: after a successful swap to
/// `module` followed by calls only, the host runs `module`.
pub proof fn lemma_module_after_calls(
    start: Option<Seq<u8>>,
    before: Seq<HostEvent>,
    module: Seq<u8>,
    after: Seq<HostEvent>,
)
    requires
        forall|i: int| 0 <= i < after.len() ==> (#[trigger] after[i]) is Call,
    ensures
        module_after(start, before.push(HostEvent::Replace { module, done: true }) + after)
            == Some(module),
    decreases after.len(),
{
    let head = before.push(HostEvent::Replace { module, done: true });
    if after.len() == 0 {
        assert(head + after == head);
    } else {
        let shorter = after.drop_last();
        lemma_module_after_calls(start, before, module, shorter);
        assert((head + after).drop_last() == head + shorter);
        assert((head + after).last() == after.last());
    }
}

} // verus!
