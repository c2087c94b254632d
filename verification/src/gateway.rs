//! The session gateway inside each worker process.
//!
//! Many concurrent client connections are funnelled into one ordered
//! channel read by the single-threaded simulation tick, and the tick's
//! output fans back out to per-session channels. The sockets, channels
//! and tasks live with the caller; this module owns the decisions: the
//! session id counter (monotonic, never reused within a process
//! lifetime), the registered-session table, what each inbound frame
//! becomes, and which sessions a broadcast reaches.

use vstd::prelude::*;
use vstd::utf8::encode_utf8;
use crate::router::Frame;

verus! {

/// The session table of one worker: the ids of the connections whose
/// outbound channel is registered, and the id counter. The caller keeps
/// the channels themselves, keyed by session id.
pub struct SessionGateway {
    pub counter: u64,
    pub sessions: Vec<u64>,
}

/// What the per-connection read task does with one received frame:
/// deliver payload bytes into the shared inbound channel, tear the
/// session down, or ignore the frame.
pub enum InboundEvent {
    Deliver(Vec<u8>),
    Shutdown,
    Ignore,
}

impl SessionGateway {
    /// `id` is a registered session.
    pub open spec fn spec_has(self, id: u64) -> bool {
        exists|i: int| 0 <= i < self.sessions@.len() && self.sessions@[i] == id
    }

    /// Every registered id was issued by the counter (so it is positive
    /// and at most the counter), and no id is registered twice.
    pub open spec fn wf(self) -> bool {
        &&& forall|i: int|
            0 <= i < self.sessions@.len() ==> 1 <= (#[trigger] self.sessions@[i])
                <= self.counter
        &&& forall|i: int, j: int|
            0 <= i < j < self.sessions@.len() ==> (#[trigger] self.sessions@[i]) != (
            #[trigger] self.sessions@[j])
    }

    /// The id the next registration will be assigned.
    pub open spec fn spec_next_id(self) -> u64 {
        (self.counter + 1) as u64
    }

    /// A gateway with no sessions and no ids issued yet.
    pub fn new() -> (g: SessionGateway)
        ensures
            g.wf(),
            g.counter == 0,
            g.sessions@.len() == 0,
    {
        SessionGateway { counter: 0, sessions: Vec::new() }
    }

    /// Whether `id` is a registered session.
    pub fn has_session(&self, id: u64) -> (b: bool)
        ensures
            b == self.spec_has(id),
    {
        let mut i: usize = 0;
        while i < self.sessions.len()
            invariant
                i <= self.sessions@.len(),
                forall|k: int| 0 <= k < i ==> (#[trigger] self.sessions@[k]) != id,
            decreases self.sessions@.len() - i,
        {
            if self.sessions[i] == id {
                return true;
            }
            i += 1;
        }
        false
    }

    /// A connection completed its upgrade handshake: assign it the next
    /// session id and register it. The new id is strictly greater than
    /// every id issued before, so it never collides with a session, live
    /// or dead, of this process.
    pub fn register_session(&mut self) -> (id: u64)
        requires
            old(self).wf(),
            old(self).counter < u64::MAX,
        ensures
            final(self).wf(),
            id == old(self).spec_next_id(),
            final(self).counter == id,
            final(self).sessions@ == old(self).sessions@.push(id),
            final(self).spec_has(id),
            !old(self).spec_has(id),
            forall|k: int| 0 <= k < old(self).sessions@.len() ==> old(self).sessions@[k] < id,
    {
        let id: u64 = self.counter + 1;
        self.counter = id;
        self.sessions.push(id);
        assert(self.sessions@[self.sessions@.len() - 1] == id);
        id
    }

    /// A read or write task exits: drop the session's table entry.
    /// Removing an id that is already gone changes nothing, so the two
    /// tasks of one connection may both remove on exit safely.
    pub fn remove_session(&mut self, id: u64)
        requires
            old(self).wf(),
        ensures
            final(self).wf(),
            final(self).counter == old(self).counter,
            !final(self).spec_has(id),
            forall|q: u64| q != id ==> final(self).spec_has(q) == old(self).spec_has(q),
            !old(self).spec_has(id) ==> *final(self) == *old(self),
    {
        let n: usize = self.sessions.len();
        let mut i: usize = 0;
        while i < n
            invariant
                n == self.sessions@.len(),
                i <= n,
                *self == *old(self),
                old(self).wf(),
                forall|k: int| 0 <= k < i ==> (#[trigger] self.sessions@[k]) != id,
            decreases n - i,
        {
            if self.sessions[i] == id {
                self.sessions.remove(i);
                proof {
                    let pre = old(self).sessions@;
                    let post = self.sessions@;
                    assert(post =~= pre.subrange(0, i as int) + pre.subrange(
                        i + 1,
                        pre.len() as int,
                    ));
                    assert(forall|k: int| 0 <= k < i ==> post[k] == pre[k]);
                    assert(forall|k: int| i <= k < post.len() ==> post[k] == pre[k + 1]);
                    assert(!final(self).spec_has(id)) by {
                        if final(self).spec_has(id) {
                            let j = choose|j: int| 0 <= j < post.len() && post[j] == id;
                            if j < i {
                                assert(pre[j] == id);
                            } else {
                                assert(pre[j + 1] == id);
                            }
                        }
                    }
                    assert forall|q: u64|
                        q != id implies final(self).spec_has(q) == old(self).spec_has(q) by {
                        if old(self).spec_has(q) {
                            let j = choose|j: int| 0 <= j < pre.len() && pre[j] == q;
                            if j < i {
                                assert(post[j] == q);
                            } else {
                                assert(j != i);
                                assert(post[j - 1] == q);
                            }
                        }
                        if final(self).spec_has(q) {
                            let j = choose|j: int| 0 <= j < post.len() && post[j] == q;
                            if j < i {
                                assert(pre[j] == q);
                            } else {
                                assert(pre[j + 1] == q);
                            }
                        }
                    }
                }
                return ;
            }
            i += 1;
        }
    }

    /// One simulation tick's fan-out: the same payload for every
    /// registered session's outbound channel, in table order.
    pub fn broadcast_frames(&self, payload: &Vec<u8>) -> (r: Vec<(u64, Vec<u8>)>)
        ensures
            r@.len() == self.sessions@.len(),
            forall|i: int|
                0 <= i < r@.len() ==> (#[trigger] r@[i]).0 == self.sessions@[i] && r@[i].1@
                    == payload@,
    {
        let mut r: Vec<(u64, Vec<u8>)> = Vec::new();
        let mut i: usize = 0;
        while i < self.sessions.len()
            invariant
                i <= self.sessions@.len(),
                r@.len() == i,
                forall|k: int|
                    0 <= k < i ==> (#[trigger] r@[k]).0 == self.sessions@[k] && r@[k].1@
                        == payload@,
            decreases self.sessions@.len() - i,
        {
            let copy = payload.clone();
            proof {
                assert(copy@ =~= payload@);
            }
            r.push((self.sessions[i], copy));
            i += 1;
        }
        r
    }
}

/// The read task's decision for one frame, as the simulation sees it:
/// binary payloads are delivered as they are; a text frame is delivered
/// as its UTF-8 bytes; a close tears the session down; other control
/// frames are ignored.
pub fn inbound_event(frame: Frame) -> (r: InboundEvent)
    ensures
        frame matches Frame::Binary(b) ==> r == InboundEvent::Deliver(b),
        frame matches Frame::Text(t) ==> (r matches InboundEvent::Deliver(b) && b@ == encode_utf8(
            t@,
        )),
        frame matches Frame::Close ==> r == InboundEvent::Shutdown,
        frame matches Frame::Control ==> r == InboundEvent::Ignore,
{
    match frame {
        Frame::Binary(b) => InboundEvent::Deliver(b),
        Frame::Text(t) => InboundEvent::Deliver(t.as_str().as_bytes_vec()),
        Frame::Close => InboundEvent::Shutdown,
        Frame::Control => InboundEvent::Ignore,
    }
}

/// Law: session ids are never reused within a process lifetime. The
/// counter never decreases under any mix of registrations and removals,
/// and every issued id equals the counter at its issue; so whatever
/// happens between two registrations, an id issued while the counter
/// stood at or below `g0.counter` differs from every id issued later.
pub proof fn lemma_session_id_never_reused(g0: SessionGateway, g1: SessionGateway, id0: u64)
    requires
        id0 <= g0.counter,
        g0.counter <= g1.counter,
        g1.counter < u64::MAX,
    ensures
        g1.spec_next_id() != id0,
        g1.spec_next_id() > id0,
{
}

} // verus!
