//! The port table: which local port runs which match's worker process.
//!
//! The table is the one structure shared by the allocator (inserts), the
//! reaper (removals) and the router (lookups). The process handles
//! themselves are operating-system values and live with the caller, keyed
//! by port; the table tracks the facts the logic reads: the port, the match
//! the worker serves, and when it started.

use vstd::prelude::*;

verus! {

/// One running worker process, tracked by the port it listens on.
/// `started_at` is a caller-supplied clock reading in milliseconds.
pub struct ServerProcess {
    pub port: u16,
    pub match_id: String,
    pub started_at: u64,
}

/// Table of occupied ports, with the fixed inclusive range the allocator
/// scans. A port absent from the table is free for allocation.
pub struct PortTable {
    pub min_port: u16,
    pub max_port: u16,
    pub entries: Vec<ServerProcess>,
}

impl PortTable {
    /// A port the allocator may hand out: inside the configured range.
    pub open spec fn spec_in_range(self, p: u16) -> bool {
        self.min_port <= p && p <= self.max_port
    }

    /// The port is a key of the table.
    pub open spec fn spec_occupied(self, p: u16) -> bool {
        exists|i: int| 0 <= i < self.entries@.len() && (#[trigger] self.entries@[i]).port == p
    }

    /// The table maps port `p` to match `m`.
    pub open spec fn spec_maps_to(self, p: u16, m: Seq<char>) -> bool {
        exists|i: int|
            0 <= i < self.entries@.len() && (#[trigger] self.entries@[i]).port == p
                && self.entries@[i].match_id@ == m
    }

    /// Well-formedness: a sane range, every tracked port inside it, and
    /// at most one entry per port.
    pub open spec fn wf(self) -> bool {
        &&& self.min_port <= self.max_port
        &&& forall|i: int|
            0 <= i < self.entries@.len() ==> self.spec_in_range(
                (#[trigger] self.entries@[i]).port,
            )
        &&& forall|i: int, j: int|
            0 <= i < j < self.entries@.len() ==> (#[trigger] self.entries@[i]).port != (
            #[trigger] self.entries@[j]).port
    }

    /// An empty table over the inclusive port range `[min_port, max_port]`.
    pub fn new(min_port: u16, max_port: u16) -> (t: PortTable)
        requires
            min_port <= max_port,
        ensures
            t.wf(),
            t.entries@.len() == 0,
            t.min_port == min_port,
            t.max_port == max_port,
    {
        PortTable { min_port, max_port, entries: Vec::new() }
    }

    /// How many ports are occupied.
    pub fn occupied_count(&self) -> (n: usize)
        ensures
            n == self.entries@.len(),
    {
        self.entries.len()
    }

    /// Whether `p` is currently occupied.
    pub fn occupied(&self, p: u16) -> (b: bool)
        ensures
            b == self.spec_occupied(p),
    {
        let mut i: usize = 0;
        while i < self.entries.len()
            invariant
                i <= self.entries@.len(),
                forall|k: int| 0 <= k < i ==> (#[trigger] self.entries@[k]).port != p,
            decreases self.entries@.len() - i,
        {
            if self.entries[i].port == p {
                return true;
            }
            i += 1;
        }
        false
    }

    /// The lowest free port of the range, if any: the first port of
    /// `[min_port, max_port]` that is not a key of the table.
    pub fn find_free_port(&self) -> (r: Option<u16>)
        requires
            self.wf(),
        ensures
            match r {
                Some(p) => self.spec_in_range(p) && !self.spec_occupied(p) && forall|q: u16|
                    self.min_port <= q < p ==> self.spec_occupied(q),
                None => forall|q: u16| self.spec_in_range(q) ==> self.spec_occupied(q),
            },
    {
        let mut p: u16 = self.min_port;
        loop
            invariant
                self.wf(),
                self.min_port <= p <= self.max_port,
                forall|q: u16| self.min_port <= q < p ==> self.spec_occupied(q),
            decreases self.max_port - p,
        {
            if !self.occupied(p) {
                return Some(p);
            }
            if p == self.max_port {
                return None;
            }
            p += 1;
        }
    }

    /// Record a successfully spawned worker. The caller holds the table
    /// exclusively from the free-port scan to this insertion, so the port
    /// is still free.
    pub fn register(&mut self, proc: ServerProcess)
        requires
            old(self).wf(),
            old(self).spec_in_range(proc.port),
            !old(self).spec_occupied(proc.port),
        ensures
            final(self).wf(),
            final(self).entries@ == old(self).entries@.push(proc),
            final(self).min_port == old(self).min_port,
            final(self).max_port == old(self).max_port,
            final(self).spec_maps_to(proc.port, proc.match_id@),
            forall|q: u16|
                q != proc.port ==> final(self).spec_occupied(q) == old(self).spec_occupied(q),
    {
        self.entries.push(proc);
        assert(self.entries@[self.entries@.len() - 1].port == proc.port);
        assert forall|q: u16| q != proc.port implies self.spec_occupied(q) == old(
            self,
        ).spec_occupied(q) by {
            if old(self).spec_occupied(q) {
                let i = choose|i: int|
                    0 <= i < old(self).entries@.len() && (#[trigger] old(self).entries@[i]).port
                        == q;
                assert(self.entries@[i].port == q);
            }
            if self.spec_occupied(q) {
                let i = choose|i: int|
                    0 <= i < self.entries@.len() && (#[trigger] self.entries@[i]).port == q;
                assert(i < old(self).entries@.len());
                assert(old(self).entries@[i].port == q);
            }
        }
    }

    /// One reaper pass over an already-scanned table: free every port
    /// whose worker was found terminated, in one sweep. The surviving
    /// entries are exactly the old entries whose port was not recorded,
    /// kept whole (port, match and start time untouched) and in order.
    pub fn remove_ports(&mut self, exited: &Vec<u16>)
        requires
            old(self).wf(),
        ensures
            final(self).wf(),
            final(self).min_port == old(self).min_port,
            final(self).max_port == old(self).max_port,
            final(self).entries@ == spec_surviving_entries(old(self).entries@, exited@),
            forall|q: u16|
                final(self).spec_occupied(q) == (old(self).spec_occupied(q)
                    && !exited@.contains(q)),
            forall|q: u16, m: Seq<char>|
                final(self).spec_maps_to(q, m) ==> old(self).spec_maps_to(q, m),
            forall|q: u16, m: Seq<char>|
                old(self).spec_maps_to(q, m) && !exited@.contains(q) ==> final(self).spec_maps_to(
                    q,
                    m,
                ),
    {
        let ghost all = self.entries@;
        let mut rest: Vec<ServerProcess> = Vec::new();
        core::mem::swap(&mut self.entries, &mut rest);
        let mut kept: Vec<ServerProcess> = Vec::new();
        while rest.len() > 0
            invariant
                kept@ + spec_surviving_entries(rest@, exited@) == spec_surviving_entries(
                    all,
                    exited@,
                ),
            decreases rest@.len(),
        {
            let ghost rest_pre = rest@;
            let e = rest.remove(0);
            proof {
                assert(rest@ =~= rest_pre.drop_first());
            }
            if port_listed(exited, e.port) {
                proof {
                    assert(spec_surviving_entries(rest_pre, exited@) == spec_surviving_entries(
                        rest@,
                        exited@,
                    ));
                }
            } else {
                kept.push(e);
                proof {
                    assert(spec_surviving_entries(rest_pre, exited@) =~= seq![rest_pre[0]]
                        + spec_surviving_entries(rest_pre.drop_first(), exited@));
                    assert(kept@ + spec_surviving_entries(rest@, exited@)
                        =~= spec_surviving_entries(all, exited@));
                }
            }
        }
        proof {
            assert(kept@ =~= kept@ + spec_surviving_entries(rest@, exited@));
        }
        self.entries = kept;
        proof {
            let res = spec_surviving_entries(all, exited@);
            assert(self.entries@ == res);
            lemma_surviving_entries_source(all, exited@);
            lemma_surviving_entries_distinct(all, exited@);
            assert forall|k: int|
                0 <= k < self.entries@.len() implies self.spec_in_range(
                (#[trigger] self.entries@[k]).port,
            ) by {
                assert(self.entries@[k] == res[k]);
                let i = choose|i: int| 0 <= i < all.len() && all[i] == res[k];
                assert(old(self).spec_in_range(all[i].port));
            }
            assert forall|q: u16|
                self.spec_occupied(q) == (old(self).spec_occupied(q) && !exited@.contains(
                    q,
                )) by {
                if self.spec_occupied(q) {
                    let k = choose|k: int|
                        0 <= k < self.entries@.len() && (#[trigger] self.entries@[k]).port == q;
                    assert(self.entries@[k] == res[k]);
                    let i = choose|i: int| 0 <= i < all.len() && all[i] == res[k];
                    assert(old(self).entries@[i].port == q);
                    assert(!exited@.contains(res[k].port));
                }
                if old(self).spec_occupied(q) && !exited@.contains(q) {
                    let i = choose|i: int| 0 <= i < all.len() && (#[trigger] all[i]).port == q;
                    lemma_surviving_entries_kept(all, exited@, i);
                    let k = choose|k: int| 0 <= k < res.len() && res[k] == all[i];
                    assert(self.entries@[k].port == q);
                }
            }
            assert forall|q: u16, m: Seq<char>|
                self.spec_maps_to(q, m) implies old(self).spec_maps_to(q, m) by {
                let k = choose|k: int|
                    0 <= k < self.entries@.len() && (#[trigger] self.entries@[k]).port == q
                        && self.entries@[k].match_id@ == m;
                assert(self.entries@[k] == res[k]);
                let i = choose|i: int| 0 <= i < all.len() && all[i] == res[k];
                assert(old(self).entries@[i].port == q && old(self).entries@[i].match_id@ == m);
            }
            assert forall|q: u16, m: Seq<char>|
                old(self).spec_maps_to(q, m) && !exited@.contains(q) implies self.spec_maps_to(
                q,
                m,
            ) by {
                let i = choose|i: int|
                    0 <= i < all.len() && (#[trigger] all[i]).port == q && all[i].match_id@ == m;
                lemma_surviving_entries_kept(all, exited@, i);
                let k = choose|k: int| 0 <= k < res.len() && res[k] == all[i];
                assert(self.entries@[k].port == q && self.entries@[k].match_id@ == m);
            }
        }
    }

    /// The port the worker of `match_id` listens on, found by a linear
    /// scan over the table, as the router resolves an incoming match id.
    pub fn port_for_match(&self, match_id: &String) -> (r: Option<u16>)
        ensures
            match r {
                Some(p) => self.spec_maps_to(p, match_id@),
                None => forall|i: int|
                    0 <= i < self.entries@.len() ==> (#[trigger] self.entries@[i]).match_id@
                        != match_id@,
            },
    {
        let mut i: usize = 0;
        while i < self.entries.len()
            invariant
                i <= self.entries@.len(),
                forall|k: int|
                    0 <= k < i ==> (#[trigger] self.entries@[k]).match_id@ != match_id@,
            decreases self.entries@.len() - i,
        {
            if self.entries[i].match_id == *match_id {
                return Some(self.entries[i].port);
            }
            i += 1;
        }
        None
    }
}

/// The entries left after freeing `ports`, in order: exactly those old
/// entries whose port was not recorded, each kept whole.
pub open spec fn spec_surviving_entries(s: Seq<ServerProcess>, ports: Seq<u16>) -> Seq<
    ServerProcess,
>
    decreases s.len(),
{
    if s.len() == 0 {
        Seq::<ServerProcess>::empty()
    } else if ports.contains(s[0].port) {
        spec_surviving_entries(s.drop_first(), ports)
    } else {
        seq![s[0]] + spec_surviving_entries(s.drop_first(), ports)
    }
}

/// Whether `p` stands in the recorded port list.
fn port_listed(ports: &Vec<u16>, p: u16) -> (b: bool)
    ensures
        b == ports@.contains(p),
{
    let mut i: usize = 0;
    while i < ports.len()
        invariant
            i <= ports@.len(),
            forall|k: int| 0 <= k < i ==> ports@[k] != p,
        decreases ports@.len() - i,
    {
        if ports[i] == p {
            assert(ports@[i as int] == p);
            return true;
        }
        i += 1;
    }
    false
}

/// Every surviving entry is one of the old entries, whole, and its port
/// was not among the freed ones.
pub proof fn lemma_surviving_entries_source(s: Seq<ServerProcess>, ports: Seq<u16>)
    ensures
        forall|k: int|
            0 <= k < spec_surviving_entries(s, ports).len() ==> !ports.contains(
                (#[trigger] spec_surviving_entries(s, ports)[k]).port,
            ) && exists|i: int| 0 <= i < s.len() && s[i] == spec_surviving_entries(s, ports)[k],
    decreases s.len(),
{
    let res = spec_surviving_entries(s, ports);
    if s.len() > 0 {
        let tail = s.drop_first();
        let rt = spec_surviving_entries(tail, ports);
        lemma_surviving_entries_source(tail, ports);
        assert forall|k: int|
            0 <= k < res.len() implies !ports.contains((#[trigger] res[k]).port) && exists|i: int|
            0 <= i < s.len() && s[i] == res[k] by {
            if ports.contains(s[0].port) {
                assert(res[k] == rt[k]);
                let i0 = choose|i: int| 0 <= i < tail.len() && tail[i] == rt[k];
                assert(s[i0 + 1] == res[k]);
            } else {
                if k == 0 {
                    assert(res[0] == s[0]);
                } else {
                    assert(res[k] == rt[k - 1]);
                    let i0 = choose|i: int| 0 <= i < tail.len() && tail[i] == rt[k - 1];
                    assert(s[i0 + 1] == res[k]);
                }
            }
        }
    }
}

/// An old entry whose port was not freed survives.
pub proof fn lemma_surviving_entries_kept(s: Seq<ServerProcess>, ports: Seq<u16>, i: int)
    requires
        0 <= i < s.len(),
        !ports.contains(s[i].port),
    ensures
        spec_surviving_entries(s, ports).contains(s[i]),
    decreases s.len(),
{
    let res = spec_surviving_entries(s, ports);
    let tail = s.drop_first();
    let rt = spec_surviving_entries(tail, ports);
    if i == 0 {
        assert(res[0] == s[0]);
    } else {
        lemma_surviving_entries_kept(tail, ports, i - 1);
        assert(tail[i - 1] == s[i]);
        let k = choose|k: int| 0 <= k < rt.len() && rt[k] == s[i];
        if ports.contains(s[0].port) {
            assert(res[k] == s[i]);
        } else {
            assert(res[k + 1] == s[i]);
        }
    }
}

/// Freeing ports never makes two surviving entries share a port.
pub proof fn lemma_surviving_entries_distinct(s: Seq<ServerProcess>, ports: Seq<u16>)
    requires
        forall|i: int, j: int|
            0 <= i < j < s.len() ==> (#[trigger] s[i]).port != (#[trigger] s[j]).port,
    ensures
        forall|k: int, l: int|
            0 <= k < l < spec_surviving_entries(s, ports).len()
                ==> (#[trigger] spec_surviving_entries(s, ports)[k]).port != (
            #[trigger] spec_surviving_entries(s, ports)[l]).port,
    decreases s.len(),
{
    let res = spec_surviving_entries(s, ports);
    if s.len() > 0 {
        let tail = s.drop_first();
        let rt = spec_surviving_entries(tail, ports);
        assert(forall|i: int, j: int|
            0 <= i < j < tail.len() ==> (#[trigger] tail[i]).port != (
            #[trigger] tail[j]).port) by {
            assert(forall|i: int| 0 <= i < tail.len() ==> tail[i] == s[i + 1]);
        }
        lemma_surviving_entries_distinct(tail, ports);
        lemma_surviving_entries_source(tail, ports);
        if !ports.contains(s[0].port) {
            assert forall|l: int| 1 <= l < res.len() implies res[0].port != (
            #[trigger] res[l]).port by {
                assert(res[l] == rt[l - 1]);
                let i0 = choose|i: int| 0 <= i < tail.len() && tail[i] == rt[l - 1];
                assert(s[i0 + 1] == res[l]);
                assert(s[0].port != s[i0 + 1].port);
            }
            assert forall|k: int, l: int|
                0 <= k < l < res.len() implies (#[trigger] res[k]).port != (
            #[trigger] res[l]).port by {
                if k > 0 {
                    assert(res[k] == rt[k - 1] && res[l] == rt[l - 1]);
                }
            }
        }
    }
}

/// Law: port-table mutual exclusion. In a well-formed table no port is
/// shared: two tracked workers serving different matches always listen on
/// different ports, so no two distinct match ids are ever assigned the same
/// port while both are alive.
pub proof fn lemma_port_mutual_exclusion(t: PortTable, i: int, j: int)
    requires
        t.wf(),
        0 <= i < t.entries@.len(),
        0 <= j < t.entries@.len(),
        t.entries@[i].match_id@ != t.entries@[j].match_id@,
    ensures
        t.entries@[i].port != t.entries@[j].port,
{
    assert(i != j);
}

/// Law: reclamation makes a port allocatable again. Once the reaper has
/// freed an in-range port (so it is no longer occupied), the table has a
/// free port, and `find_free_port`'s contract rules out `None`: the next
/// allocation's scan succeeds.
pub proof fn lemma_freed_port_allocatable(t: PortTable, p: u16)
    requires
        t.wf(),
        t.spec_in_range(p),
        !t.spec_occupied(p),
    ensures
        exists|q: u16| t.spec_in_range(q) && !t.spec_occupied(q),
        !(forall|q: u16| t.spec_in_range(q) ==> t.spec_occupied(q)),
{
    assert(t.spec_in_range(p) && !t.spec_occupied(p));
}

} // verus!
