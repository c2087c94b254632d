//! The allocator: pick a free port, have the caller launch the worker
//! binary on it, and record the running worker in the port table.
//!
//! Process launch is operating-system work and happens outside; its
//! outcome comes back as a plain flag. The port table is touched under one
//! exclusive acquisition from the scan to the insertion, so the picked
//! port is still free when the spawned worker is recorded, and a failed
//! launch leaves the table exactly as it was.

use vstd::prelude::*;
use vstd::string::StringExecFns;
use crate::digits::{spec_decimal, u16_to_decimal};
use crate::ports::{PortTable, ServerProcess};

verus! {

/// Why an allocation attempt failed: every port of the range is occupied,
/// or the worker binary could not be launched.
#[derive(Clone, Copy, Debug, PartialEq, Eq, Structural)]
pub enum AllocError {
    NoCapacity,
    SpawnFailed,
}

impl AllocError {
    /// The response body a caller sees for this failure.
    pub fn message(&self) -> (r: String)
        ensures
            *self == AllocError::NoCapacity ==> r@ == "No ports available"@,
            *self == AllocError::SpawnFailed ==> r@ == "Failed to spawn process"@,
    {
        match self {
            AllocError::NoCapacity => String::from_str("No ports available"),
            AllocError::SpawnFailed => String::from_str("Failed to spawn process"),
        }
    }

    /// The HTTP status a caller sees: service unavailable when the range
    /// is exhausted (retryable elsewhere), internal error for a failed
    /// launch.
    pub fn http_status(&self) -> (r: u16)
        ensures
            *self == AllocError::NoCapacity ==> r == 503,
            *self == AllocError::SpawnFailed ==> r == 500,
    {
        match self {
            AllocError::NoCapacity => 503,
            AllocError::SpawnFailed => 500,
        }
    }
}

/// An allocation request: the match to serve and one opaque bearer token
/// per player, minted by the matchmaker.
pub struct AllocateRequest {
    pub match_id: String,
    pub p1_token: String,
    pub p2_token: String,
}

/// A successful allocation: where clients connect, the worker's local
/// port (informational only, never used for routing by clients), and the
/// identity of the node that answered.
pub struct AllocateResponse {
    pub connect_url: String,
    pub port: u16,
    pub node_id: String,
}

/// The publicly reachable connect URL for a match.
pub open spec fn spec_connect_url(host: Seq<char>, match_id: Seq<char>) -> Seq<char> {
    "wss://"@ + host + "/play/"@ + match_id
}

/// The node identity reported in allocation responses.
pub open spec fn spec_node_id() -> Seq<char> {
    "allocator-01"@
}

/// Scan the table's fixed inclusive port range for the first free port.
/// Fails with `NoCapacity` exactly when every port of the range is
/// occupied; the table is never changed.
pub fn pick_port(table: &PortTable) -> (r: Result<u16, AllocError>)
    requires
        table.wf(),
    ensures
        match r {
            Ok(p) => table.spec_in_range(p) && !table.spec_occupied(p) && forall|q: u16|
                table.min_port <= q < p ==> table.spec_occupied(q),
            Err(e) => e == AllocError::NoCapacity && forall|q: u16|
                table.spec_in_range(q) ==> table.spec_occupied(q),
        },
{
    match table.find_free_port() {
        Some(p) => Ok(p),
        None => Err(AllocError::NoCapacity),
    }
}

/// Build the worker binary's command line for a launch on `port`, after
/// the binary path itself:
/// `--port <port> --p1-token <t1> --p2-token <t2> --match-id <id>`.
pub fn worker_args(port: u16, req: &AllocateRequest) -> (r: Vec<String>)
    ensures
        r@.len() == 8,
        r@[0]@ == "--port"@,
        r@[1]@ == spec_decimal(port as nat),
        r@[2]@ == "--p1-token"@,
        r@[3]@ == req.p1_token@,
        r@[4]@ == "--p2-token"@,
        r@[5]@ == req.p2_token@,
        r@[6]@ == "--match-id"@,
        r@[7]@ == req.match_id@,
{
    let mut r: Vec<String> = Vec::new();
    r.push(String::from_str("--port"));
    r.push(u16_to_decimal(port));
    r.push(String::from_str("--p1-token"));
    r.push(req.p1_token.clone());
    r.push(String::from_str("--p2-token"));
    r.push(req.p2_token.clone());
    r.push(String::from_str("--match-id"));
    r.push(req.match_id.clone());
    r
}

/// The URL clients are told to connect to: routing is by match id on the
/// public host, never by the worker's port.
pub fn connect_url(public_host: &String, match_id: &String) -> (r: String)
    ensures
        r@ == spec_connect_url(public_host@, match_id@),
{
    let mut r = String::from_str("wss://");
    r.append(public_host.as_str());
    r.append("/play/");
    r.append(match_id.as_str());
    proof {
        assert(r@ =~= spec_connect_url(public_host@, match_id@));
    }
    r
}

/// Complete an allocation whose port came from `pick_port` under the same
/// exclusive hold of the table. `spawn_ok` reports whether the worker
/// binary launched. On success the worker is recorded on its port and the
/// caller gets the public connect URL; on a failed launch nothing is
/// recorded, the table is left exactly as it was, and the attempt fails
/// cleanly with `SpawnFailed`.
pub fn finish_allocation(
    table: &mut PortTable,
    port: u16,
    req: &AllocateRequest,
    started_at: u64,
    spawn_ok: bool,
    public_host: &String,
) -> (r: Result<AllocateResponse, AllocError>)
    requires
        old(table).wf(),
        old(table).spec_in_range(port),
        !old(table).spec_occupied(port),
    ensures
        final(table).wf(),
        final(table).min_port == old(table).min_port,
        final(table).max_port == old(table).max_port,
        spawn_ok ==> (r matches Ok(resp) && resp.port == port && resp.connect_url@
            == spec_connect_url(public_host@, req.match_id@) && resp.node_id@ == spec_node_id()),
        spawn_ok ==> final(table).spec_occupied(port) && final(table).spec_maps_to(
            port,
            req.match_id@,
        ),
        spawn_ok ==> final(table).entries@.len() == old(table).entries@.len() + 1,
        spawn_ok ==> forall|q: u16|
            q != port ==> final(table).spec_occupied(q) == old(table).spec_occupied(q),
        !spawn_ok ==> r == Result::<AllocateResponse, AllocError>::Err(AllocError::SpawnFailed)
            && *final(table) == *old(table),
{
    if spawn_ok {
        table.register(ServerProcess { port, match_id: req.match_id.clone(), started_at });
        Ok(
            AllocateResponse {
                connect_url: connect_url(public_host, &req.match_id),
                port,
                node_id: String::from_str("allocator-01"),
            },
        )
    } else {
        Err(AllocError::SpawnFailed)
    }
}

} // verus!
