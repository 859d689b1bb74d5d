use vstd::prelude::*;
use std::collections::HashMap;
use std::time::{Duration, Instant, SystemTime};
use crate::config::{Engine, Model};

verus! {

broadcast use {vstd::std_specs::hash::group_hash_axioms, vstd::seq_lib::group_to_multiset_ensures};

/// A point of the wall clock; the library only carries it.
#[verifier::external_type_specification]
#[verifier::external_body]
pub struct ExSystemTime(std::time::SystemTime);

/// A point of the monotonic clock; the library only carries it.
#[verifier::external_type_specification]
#[verifier::external_body]
pub struct ExInstant(std::time::Instant);

/// `Instant::elapsed`: the time since the instant, as the clock reads now.
#[verifier::external_body]
fn instant_elapsed(instant: &Instant) -> Duration {
    instant.elapsed()
}

/// Whether a log file still accepts writes: after one write fails, no more are tried.
pub struct LogWriteGate {
    pub is_errored: bool,
}

impl LogWriteGate {
    /// A gate for a freshly created log file.
    pub fn new() -> (gate: LogWriteGate)
        ensures
            !gate.is_errored,
    {
        LogWriteGate { is_errored: false }
    }

    /// Whether a write should be tried.
    pub fn should_write(&self) -> (write: bool)
        ensures
            write == !self.is_errored,
    {
        !self.is_errored
    }

    /// Takes note of whether a write succeeded.
    pub fn record(&mut self, succeeded: bool)
        ensures
            final(self).is_errored == (old(self).is_errored || !succeeded),
    {
        if !succeeded {
            self.is_errored = true;
        }
    }
}

/// The phase an engine instance is in.
#[derive(Copy, Clone, PartialEq, Eq, Structural)]
pub enum EngineState {
    Starting,
    Running,
    Stopping,
}

/// Which output stream of an engine a line came from.
#[derive(Copy, Clone, PartialEq, Eq, Structural)]
pub enum OutputStream {
    Stdout,
    Stderr,
}

/// Tells apart the requests pending on the engines.
#[derive(Copy, Clone, PartialEq, Eq, Structural, Hash, Debug)]
pub struct PendingEngineRequestId(pub u64);

impl PendingEngineRequestId {
    /// Takes the next identifier from an ever increasing, wrapping counter.
    pub fn new(next_id: &mut u64) -> (id: PendingEngineRequestId)
        ensures
            id.0 == *old(next_id),
            *final(next_id) == (if *old(next_id) == u64::MAX { 0 } else { (*old(next_id) + 1) as u64 }),
    {
        let id = PendingEngineRequestId(*next_id);
        *next_id = next_id.wrapping_add(1);
        id
    }
}

/// A request that an engine is serving.
#[derive(Copy, Clone)]
pub struct PendingEngineRequest {
    pub start_time: Instant,
}

impl PendingEngineRequest {
    /// How long ago the request started, as the clock reads now.
    pub fn elapsed_since_start(&self) -> Duration {
        instant_elapsed(&self.start_time)
    }
}

/// The requests an engine is serving, and when requests last started and ended.
pub struct EngineActivity {
    pub pending_engine_requests: HashMap<u64, PendingEngineRequest>,
    pub latest_request_start_time: Option<SystemTime>,
    pub latest_response_end_time: Option<SystemTime>,
}

impl EngineActivity {
    /// No request yet.
    pub fn new() -> (activity: EngineActivity)
        ensures
            activity.pending_engine_requests@ == Map::<u64, PendingEngineRequest>::empty(),
            activity.latest_request_start_time is None,
            activity.latest_response_end_time is None,
    {
        EngineActivity {
            pending_engine_requests: HashMap::new(),
            latest_request_start_time: None,
            latest_response_end_time: None,
        }
    }

    /// Whether some request is pending.
    pub fn has_pending_requests(&self) -> (pending: bool)
        ensures
            pending == !self.pending_engine_requests@.is_empty(),
    {
        !self.pending_engine_requests.is_empty()
    }

    /// The number of pending requests.
    pub fn pending_requests_count(&self) -> (count: usize)
        ensures
            count == self.pending_engine_requests@.len(),
    {
        self.pending_engine_requests.len()
    }

    /// Records that a request started at `now`.
    pub fn begin_request(&mut self, id: PendingEngineRequestId, request: PendingEngineRequest, now: SystemTime)
        ensures
            final(self).pending_engine_requests@ == old(self).pending_engine_requests@.insert(id.0, request),
            final(self).latest_request_start_time == Some(now),
            final(self).latest_response_end_time == old(self).latest_response_end_time,
    {
        self.pending_engine_requests.insert(id.0, request);
        self.latest_request_start_time = Some(now);
    }

    /// Records that the response to a request ended at `now`.
    pub fn end_request(&mut self, id: PendingEngineRequestId, now: SystemTime)
        ensures
            final(self).pending_engine_requests@ == old(self).pending_engine_requests@.remove(id.0),
            final(self).latest_request_start_time == old(self).latest_request_start_time,
            final(self).latest_response_end_time == Some(now),
    {
        self.pending_engine_requests.remove(&id.0);
        self.latest_response_end_time = Some(now);
    }
}

/// Beginning a request with a fresh identifier and then ending it leaves the
/// pending requests as they were, and a request is pending in between.
pub proof fn lemma_request_round_trip(
    pending: Map<u64, PendingEngineRequest>,
    id: u64,
    request: PendingEngineRequest,
)
    requires
        !pending.contains_key(id),
    ensures
        !pending.insert(id, request).is_empty(),
        pending.insert(id, request).remove(id) == pending,
{
    assert(pending.insert(id, request).dom().contains(id));
    assert(pending.insert(id, request).remove(id) =~= pending);
}

/// A running or starting engine that serves one model.
pub struct EngineInstance {
    pub engine_config: Engine,
    pub model_config: Model,
    pub log_file_path: String,
    pub engine_port: u16,
    pub engine_state: EngineState,
    pub engine_process_id: Option<u32>,
    pub engine_activity: EngineActivity,
}

impl EngineInstance {
    /// The name of the model the engine serves.
    pub fn model_name(&self) -> (name: &str)
        ensures
            name@ == self.model_config.name@,
    {
        self.model_config.name.as_str()
    }
}

/// Marks a request as being served by the engine on `engine_port`: the request
/// stays pending until the handle is given back.
pub struct EngineRequestResponderHandle {
    pub request_id: PendingEngineRequestId,
    pub engine_port: u16,
    pub request: PendingEngineRequest,
}


/// Whether the ports are in ascending order.
pub open spec fn ports_sorted(ports: Seq<u16>) -> bool {
    forall|i: int, j: int| 0 <= i <= j < ports.len() ==> ports[i] <= ports[j]
}

/// Some port at or above `base` is not among `ports`.
pub open spec fn has_free_port_from(base: u16, ports: Seq<u16>) -> bool {
    exists|p: u16| base <= p && !ports.contains(p)
}

/// `port` is the least port at or above `base` that is not among `ports`.
pub open spec fn is_first_free_port(base: u16, ports: Seq<u16>, port: u16) -> bool {
    &&& base <= port
    &&& !ports.contains(port)
    &&& forall|q: u16| base <= q < port ==> ports.contains(q)
}

/// Inserts `value` into an ascending vector at the place that keeps it ascending.
fn insert_sorted(sorted: &mut Vec<u16>, value: u16)
    requires
        ports_sorted(old(sorted)@),
    ensures
        ports_sorted(final(sorted)@),
        final(sorted)@.to_multiset() =~= old(sorted)@.to_multiset().insert(value),
{
    let mut pos: usize = 0;
    while pos < sorted.len() && sorted[pos] <= value
        invariant
            0 <= pos <= sorted.len(),
            forall|k: int| 0 <= k < pos ==> sorted@[k] <= value,
        decreases sorted.len() - pos,
    {
        pos = pos + 1;
    }
    proof {
        vstd::seq_lib::to_multiset_insert(sorted@, pos as int, value);
    }
    sorted.insert(pos, value);
}

/// Sorts the ports in ascending order.
fn sort_ports(ports: &mut Vec<u16>)
    ensures
        ports_sorted(final(ports)@),
        final(ports)@.to_multiset() =~= old(ports)@.to_multiset(),
{
    let mut sorted: Vec<u16> = Vec::new();
    let mut i: usize = 0;
    while i < ports.len()
        invariant
            0 <= i <= ports.len(),
            ports_sorted(sorted@),
            sorted@.to_multiset() =~= ports@.take(i as int).to_multiset(),
        decreases ports.len() - i,
    {
        let value = ports[i];
        insert_sorted(&mut sorted, value);
        proof {
            assert(ports@.take(i as int + 1) =~= ports@.take(i as int).push(value));
            vstd::seq_lib::to_multiset_build(ports@.take(i as int), value);
        }
        i = i + 1;
    }
    proof {
        assert(ports@.take(ports.len() as int) =~= ports@);
    }
    *ports = sorted;
}

/// Returns the first port at or above `base_port` that is not among
/// `allocated_ports`; the allocated ports are left sorted in ascending order.
pub fn next_available_port(base_port: u16, allocated_ports: &mut Vec<u16>) -> (port: u16)
    requires
        has_free_port_from(base_port, old(allocated_ports)@),
    ensures
        is_first_free_port(base_port, old(allocated_ports)@, port),
        ports_sorted(final(allocated_ports)@),
        final(allocated_ports)@.to_multiset() =~= old(allocated_ports)@.to_multiset(),
{
    let ghost given = allocated_ports@;
    sort_ports(allocated_ports);
    let ghost s = allocated_ports@;
    proof {
        assert forall|x: u16| s.contains(x) <==> given.contains(x) by {
            vstd::seq_lib::to_multiset_contains(s, x);
            vstd::seq_lib::to_multiset_contains(given, x);
        }
    }
    let mut port = base_port;
    let mut i: usize = 0;
    while i < allocated_ports.len()
        invariant
            allocated_ports@ == s,
            ports_sorted(s),
            0 <= i <= s.len(),
            base_port <= port,
            forall|j: int| 0 <= j < i ==> s[j] < port,
            forall|q: u16| base_port <= q < port ==> s.contains(q),
            forall|x: u16| s.contains(x) <==> given.contains(x),
            has_free_port_from(base_port, given),
            given == old(allocated_ports)@,
            s.to_multiset() =~= given.to_multiset(),
        decreases s.len() - i,
    {
        let allocated_port = allocated_ports[i];
        if port < allocated_port {
            proof {
                assert forall|j: int| 0 <= j < s.len() implies s[j] != port by {
                    if j >= i {
                        assert(s[i as int] <= s[j]);
                    }
                }
            }
            return port;
        }
        if port == allocated_port {
            if port == u16::MAX {
                proof {
                    let p = choose|p: u16| base_port <= p && !given.contains(p);
                    assert(s.contains(s[i as int]));
                    if p < port {
                        assert(s.contains(p));
                    }
                    assert(false);
                }
            }
            proof {
                assert(s.contains(s[i as int]));
            }
            port = port + 1;
        }
        i = i + 1;
    }
    proof {
        assert forall|j: int| 0 <= j < s.len() implies s[j] != port by {}
    }
    port
}

/// The first port at or above `base_port` that is not among `ports`, if any.
pub fn first_free_port(base_port: u16, ports: &Vec<u16>) -> (port: Option<u16>)
    ensures
        match port {
            Some(p) => is_first_free_port(base_port, ports@, p),
            None => !has_free_port_from(base_port, ports@),
        },
{
    let mut sorted = ports.clone();
    proof {
        assert(sorted@ =~= ports@);
    }
    if !has_free_port_exec(base_port, &sorted) {
        return None;
    }
    let p = next_available_port(base_port, &mut sorted);
    Some(p)
}

/// Whether some port at or above `base_port` is not among `ports`.
fn has_free_port_exec(base_port: u16, ports: &Vec<u16>) -> (free: bool)
    ensures
        free == has_free_port_from(base_port, ports@),
{
    // Every port from `base_port` up is taken only if the ports above or at
    // the base, counted without repeats, cover the whole range.
    let mut p: u16 = base_port;
    loop
        invariant
            base_port <= p,
            forall|q: u16| base_port <= q < p ==> ports@.contains(q),
        decreases u16::MAX - p,
    {
        let mut found = false;
        let mut i: usize = 0;
        while i < ports.len()
            invariant
                0 <= i <= ports.len(),
                found ==> ports@.contains(p),
                !found ==> forall|k: int| 0 <= k < i ==> ports@[k] != p,
            decreases ports.len() - i,
        {
            if ports[i] == p {
                found = true;
            }
            i = i + 1;
        }
        if !found {
            proof {
                assert(!ports@.contains(p));
            }
            return true;
        }
        if p == u16::MAX {
            proof {
                assert forall|q: u16| base_port <= q implies ports@.contains(q) by {
                    if q < p {
                    } else {
                        assert(q == p);
                    }
                }
            }
            return false;
        }
        p = p + 1;
    }
}

} // verus!
