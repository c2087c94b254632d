//! The reaper pass: detect terminated workers and free their ports.
//!
//! The caller's background loop polls, without blocking, every tracked
//! process for termination and reports the findings here as plain
//! `WorkerStatus` values. The pass first records every exited port, then
//! removes them from the table in one sweep, never mutating the table
//! while scanning it. A still-running worker is left untouched.

use vstd::prelude::*;
use crate::ports::{spec_surviving_entries, PortTable, ServerProcess};

verus! {

/// One poll result: whether the worker on `port` has terminated. A poll
/// error counts as still running, as the original loop only frees a port
/// on a definite exit.
pub struct WorkerStatus {
    pub port: u16,
    pub has_exited: bool,
}

/// Some status in `s` reports `p` exited.
pub open spec fn spec_exited(s: Seq<WorkerStatus>, p: u16) -> bool {
    exists|i: int|
        0 <= i < s.len() && (#[trigger] s[i]).port == p && s[i].has_exited
}

/// The scan half of a reaper tick: collect every port whose worker was
/// found terminated, touching nothing.
pub fn ports_to_free(statuses: &Vec<WorkerStatus>) -> (r: Vec<u16>)
    ensures
        forall|p: u16| r@.contains(p) == spec_exited(statuses@, p),
{
    let mut r: Vec<u16> = Vec::new();
    let mut i: usize = 0;
    while i < statuses.len()
        invariant
            i <= statuses@.len(),
            forall|p: u16| r@.contains(p) == spec_exited(statuses@.subrange(0, i as int), p),
        decreases statuses@.len() - i,
    {
        proof {
            assert(statuses@.subrange(0, i + 1).drop_last() =~= statuses@.subrange(0, i as int));
        }
        let ghost r_pre = r@;
        if statuses[i].has_exited {
            r.push(statuses[i].port);
        }
        proof {
            let pref = statuses@.subrange(0, i as int);
            let prefx = statuses@.subrange(0, i + 1);
            assert(prefx[i as int] == statuses@[i as int]);
            assert(forall|j: int| 0 <= j < i ==> prefx[j] == pref[j]);
            assert forall|p: u16| r@.contains(p) == spec_exited(prefx, p) by {
                if r@.contains(p) {
                    let j = choose|j: int| 0 <= j < r@.len() && r@[j] == p;
                    if j < r_pre.len() {
                        assert(r_pre[j] == p);
                        assert(r_pre.contains(p));
                        let w = choose|w: int|
                            0 <= w < pref.len() && (#[trigger] pref[w]).port == p
                                && pref[w].has_exited;
                        assert(prefx[w].port == p && prefx[w].has_exited);
                    } else {
                        assert(prefx[i as int].port == p && prefx[i as int].has_exited);
                    }
                }
                if spec_exited(prefx, p) {
                    let w = choose|w: int|
                        0 <= w < prefx.len() && (#[trigger] prefx[w]).port == p
                            && prefx[w].has_exited;
                    if w < i {
                        assert(pref[w].port == p && pref[w].has_exited);
                        assert(r_pre.contains(p));
                        let j = choose|j: int| 0 <= j < r_pre.len() && r_pre[j] == p;
                        assert(r@[j] == p);
                    } else {
                        assert(statuses@[i as int].has_exited);
                        assert(r@[r@.len() - 1] == p);
                    }
                }
            }
        }
        i += 1;
    }
    proof {
        assert(statuses@.subrange(0, statuses@.len() as int) =~= statuses@);
    }
    r
}

/// The table entries a reaper tick leaves, in order: exactly those whose
/// worker was not reported exited, each kept whole — port, match id and
/// start time untouched, as a still-running process is left untouched.
pub open spec fn spec_live_entries(s: Seq<ServerProcess>, statuses: Seq<WorkerStatus>) -> Seq<
    ServerProcess,
>
    decreases s.len(),
{
    if s.len() == 0 {
        Seq::<ServerProcess>::empty()
    } else if spec_exited(statuses, s[0].port) {
        spec_live_entries(s.drop_first(), statuses)
    } else {
        seq![s[0]] + spec_live_entries(s.drop_first(), statuses)
    }
}

/// A port list that records exactly the exited ports selects exactly the
/// live entries.
proof fn lemma_live_entries_from_ports(
    s: Seq<ServerProcess>,
    statuses: Seq<WorkerStatus>,
    ports: Seq<u16>,
)
    requires
        forall|p: u16| ports.contains(p) == spec_exited(statuses, p),
    ensures
        spec_surviving_entries(s, ports) == spec_live_entries(s, statuses),
    decreases s.len(),
{
    if s.len() > 0 {
        lemma_live_entries_from_ports(s.drop_first(), statuses, ports);
        assert(ports.contains(s[0].port) == spec_exited(statuses, s[0].port));
    }
}

/// One full reaper tick over an already-polled table: after the pass a
/// port is occupied exactly when it was occupied before and its worker was
/// not reported exited; the surviving entries are exactly the old entries
/// of still-running workers, kept whole and in order.
pub fn reap_pass(table: &mut PortTable, statuses: &Vec<WorkerStatus>)
    requires
        old(table).wf(),
    ensures
        final(table).wf(),
        final(table).min_port == old(table).min_port,
        final(table).max_port == old(table).max_port,
        final(table).entries@ == spec_live_entries(old(table).entries@, statuses@),
        forall|q: u16|
            final(table).spec_occupied(q) == (old(table).spec_occupied(q) && !spec_exited(
                statuses@,
                q,
            )),
        forall|q: u16, m: Seq<char>|
            final(table).spec_maps_to(q, m) ==> old(table).spec_maps_to(q, m),
        forall|q: u16, m: Seq<char>|
            old(table).spec_maps_to(q, m) && !spec_exited(statuses@, q)
                ==> final(table).spec_maps_to(q, m),
{
    let exited = ports_to_free(statuses);
    table.remove_ports(&exited);
    proof {
        lemma_live_entries_from_ports(old(table).entries@, statuses@, exited@);
    }
}

} // verus!
