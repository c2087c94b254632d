//! The matchmaker: pair queued players in twos.
//!
//! One matchmaking request pushes the player onto the shared queue and,
//! once two entries exist, pops exactly two and decides the attempt. The
//! shared queue store is not atomic across the length check and the two
//! pops, so a short pop is a retry signal, never an error: the straggler
//! goes back to the tail. Two identical popped ids mean the same player
//! was queued twice; the attempt is discarded silently so that no player
//! is ever paired with themselves.

use vstd::prelude::*;
use crate::queue::MatchQueue;

verus! {

/// The decision over the two pop results of a pairing attempt.
pub enum PairDecision {
    /// Two distinct players came off the queue: pair them.
    Proceed(String, String),
    /// Only one pop succeeded (a concurrent matchmaker raced us): push
    /// the straggler back to the tail and give up this attempt.
    RequeueStraggler(String),
    /// Neither pop yielded anything: give up this attempt.
    Abandon,
    /// The same player id twice: discard the attempt silently.
    DiscardDuplicate,
}

/// What one matchmaking request ends as.
pub enum EnqueueOutcome {
    /// Fewer than two queued players: keep searching.
    Searching,
    /// A pop raced with another matchmaker; the attempt was abandoned
    /// and any straggler requeued.
    QueueRace,
    /// The two popped entries were the same player id; dropped silently.
    DuplicateDiscarded,
    /// Two distinct players matched, in pop order.
    Paired(String, String),
}

/// Decide a pairing attempt from the two pop results, exactly as the
/// queue race rules demand: any successfully popped entry of a short pop
/// is handed back for requeueing, never dropped.
pub fn pair_decision(p1: Option<String>, p2: Option<String>) -> (r: PairDecision)
    ensures
        p1 is None ==> p2 is None ==> r == PairDecision::Abandon,
        p1 is None ==> (p2 matches Some(b) ==> r == PairDecision::RequeueStraggler(b)),
        p1 matches Some(a) ==> p2 is None ==> r == PairDecision::RequeueStraggler(a),
        p1 matches Some(a) ==> p2 matches Some(b) ==> a@ == b@ ==> r
            == PairDecision::DiscardDuplicate,
        p1 matches Some(a) ==> p2 matches Some(b) ==> a@ != b@ ==> r == PairDecision::Proceed(
            a,
            b,
        ),
        r matches PairDecision::Proceed(a, b) ==> a@ != b@,
{
    match (p1, p2) {
        (Some(a), Some(b)) => {
            if a == b {
                PairDecision::DiscardDuplicate
            } else {
                PairDecision::Proceed(a, b)
            }
        },
        (Some(a), None) => PairDecision::RequeueStraggler(a),
        (None, Some(b)) => PairDecision::RequeueStraggler(b),
        (None, None) => PairDecision::Abandon,
    }
}

/// One whole matchmaking step against the queue as a value: push the
/// player, and pair if two entries exist.
///
/// Laws carried by this contract: enqueuing the same player id twice
/// before a match forms never creates a self-paired match (a `Paired`
/// outcome always names two distinct ids); and when matches are taken in
/// twos, the queue never holds more than one unmatched surplus entry (a
/// queue of at most one entry before the step holds at most one after).
pub fn enqueue_step(queue: &mut MatchQueue, player_id: String) -> (r: EnqueueOutcome)
    ensures
        old(queue).entries@.len() == 0 ==> r == EnqueueOutcome::Searching && final(queue).entries@
            == old(queue).entries@.push(player_id),
        old(queue).entries@.len() > 0 ==> {
            let after_push = old(queue).entries@.push(player_id);
            &&& final(queue).entries@ == after_push.drop_first().drop_first()
            &&& (after_push[0]@ == after_push[1]@ ==> r == EnqueueOutcome::DuplicateDiscarded)
            &&& (after_push[0]@ != after_push[1]@ ==> r == EnqueueOutcome::Paired(
                after_push[0],
                after_push[1],
            ))
        },
        !(r matches EnqueueOutcome::QueueRace),
        r matches EnqueueOutcome::Paired(a, b) ==> a@ != b@,
        old(queue).entries@.len() <= 1 ==> final(queue).entries@.len() <= 1,
{
    queue.push_tail(player_id);
    if queue.len() < 2 {
        return EnqueueOutcome::Searching;
    }
    let p1 = queue.pop_head();
    let p2 = queue.pop_head();
    match pair_decision(p1, p2) {
        PairDecision::Proceed(a, b) => EnqueueOutcome::Paired(a, b),
        PairDecision::RequeueStraggler(a) => {
            queue.push_tail(a);
            EnqueueOutcome::Searching
        },
        PairDecision::Abandon => EnqueueOutcome::Searching,
        PairDecision::DiscardDuplicate => EnqueueOutcome::DuplicateDiscarded,
    }
}

} // verus!
