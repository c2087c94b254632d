//! Match tickets: the record a matchmaking caller polls.
//!
//! One ticket row exists per (match, player) pair — two rows per match.
//! A ready ticket always carries both the connect URL and the handoff
//! token; a searching ticket carries neither. Rows are never mutated in
//! place: a player re-entering matchmaking has their old rows deleted
//! before new ones are written, so a caller can never be handed a stale
//! match. The rows live in an external store; these functions carry the
//! decision logic over the rows as plain values.

use vstd::prelude::*;

verus! {

/// The two states a ticket can report.
#[derive(Clone, Copy, Debug, PartialEq, Eq, Structural)]
pub enum TicketStatus {
    Searching,
    Ready,
}

/// One persisted matchmaking outcome for one player.
pub struct MatchTicket {
    pub match_id: String,
    pub player_id: String,
    pub status: TicketStatus,
    pub connect_url: Option<String>,
    pub handoff_token: Option<String>,
    pub created_at: u64,
    pub updated_at: u64,
}

impl MatchTicket {
    /// A ready ticket carries both the URL and the token; a searching
    /// ticket carries neither.
    pub open spec fn wf(self) -> bool {
        &&& (self.status == TicketStatus::Ready <==> self.connect_url is Some)
        &&& (self.status == TicketStatus::Ready <==> self.handoff_token is Some)
    }
}

/// The ready ticket row for one player of a completed pairing.
pub open spec fn spec_ready_ticket(
    match_id: String,
    player_id: String,
    connect_url: String,
    handoff_token: String,
    now: u64,
) -> MatchTicket {
    MatchTicket {
        match_id,
        player_id,
        status: TicketStatus::Ready,
        connect_url: Some(connect_url),
        handoff_token: Some(handoff_token),
        created_at: now,
        updated_at: now,
    }
}

/// Build one ready ticket.
pub fn ready_ticket(
    match_id: &String,
    player_id: String,
    connect_url: String,
    handoff_token: String,
    now: u64,
) -> (t: MatchTicket)
    ensures
        t == spec_ready_ticket(*match_id, player_id, connect_url, handoff_token, now),
        t.wf(),
        t.match_id@ == match_id@,
        t.player_id == player_id,
        t.status == TicketStatus::Ready,
        t.connect_url matches Some(u) && u == connect_url,
        t.handoff_token matches Some(h) && h == handoff_token,
        t.created_at == now,
        t.updated_at == now,
{
    MatchTicket {
        match_id: match_id.clone(),
        player_id,
        status: TicketStatus::Ready,
        connect_url: Some(connect_url),
        handoff_token: Some(handoff_token),
        created_at: now,
        updated_at: now,
    }
}

/// The two rows persisted when a pairing completes: one ready ticket per
/// player, each with their own token, both naming the same match and the
/// same connect URL, stamped with the same clock reading.
pub fn ready_pair(
    match_id: &String,
    player_a: String,
    player_b: String,
    token_a: String,
    token_b: String,
    connect_url: &String,
    now: u64,
) -> (r: (MatchTicket, MatchTicket))
    ensures
        r.0.wf() && r.1.wf(),
        r.0.status == TicketStatus::Ready && r.1.status == TicketStatus::Ready,
        r.0.match_id@ == match_id@ && r.1.match_id@ == match_id@,
        r.0.player_id == player_a && r.1.player_id == player_b,
        r.0.handoff_token matches Some(t) && t == token_a,
        r.1.handoff_token matches Some(t) && t == token_b,
        r.0.connect_url matches Some(u) && u@ == connect_url@,
        r.1.connect_url matches Some(u) && u@ == connect_url@,
        r.0.created_at == now && r.1.created_at == now,
{
    let t0 = ready_ticket(match_id, player_a, connect_url.clone(), token_a, now);
    let t1 = ready_ticket(match_id, player_b, connect_url.clone(), token_b, now);
    (t0, t1)
}

/// The rows left after deleting every ticket of one player, in order.
pub open spec fn spec_without_player(s: Seq<MatchTicket>, player_id: Seq<char>) -> Seq<MatchTicket>
    decreases s.len(),
{
    if s.len() == 0 {
        Seq::<MatchTicket>::empty()
    } else if s[0].player_id@ == player_id {
        spec_without_player(s.drop_first(), player_id)
    } else {
        seq![s[0]] + spec_without_player(s.drop_first(), player_id)
    }
}

/// Delete every ticket of `player_id` from a set of rows: the cleanup a
/// re-entering player triggers before a new search, so no stale ticket
/// can ever be observed again.
pub fn delete_for_player(store: Vec<MatchTicket>, player_id: &String) -> (r: Vec<MatchTicket>)
    ensures
        r@ == spec_without_player(store@, player_id@),
{
    let ghost all = store@;
    let mut rest = store;
    let mut kept: Vec<MatchTicket> = Vec::new();
    while rest.len() > 0
        invariant
            kept@ + spec_without_player(rest@, player_id@) == spec_without_player(all, player_id@),
        decreases rest@.len(),
    {
        let ghost rest_pre = rest@;
        let t = rest.remove(0);
        proof {
            assert(rest@ =~= rest_pre.drop_first());
        }
        if t.player_id == *player_id {
            proof {
                assert(spec_without_player(rest_pre, player_id@) == spec_without_player(
                    rest@,
                    player_id@,
                ));
            }
        } else {
            kept.push(t);
            proof {
                assert(spec_without_player(rest_pre, player_id@) =~= seq![rest_pre[0]]
                    + spec_without_player(rest_pre.drop_first(), player_id@));
                assert(kept@ + spec_without_player(rest@, player_id@) =~= spec_without_player(
                    all,
                    player_id@,
                ));
            }
        }
    }
    proof {
        assert(kept@ =~= kept@ + spec_without_player(rest@, player_id@));
    }
    kept
}

/// No row of the deleted player remains.
pub proof fn lemma_without_player_no_rows(s: Seq<MatchTicket>, player_id: Seq<char>)
    ensures
        forall|i: int|
            0 <= i < spec_without_player(s, player_id).len() ==> (#[trigger] spec_without_player(
                s,
                player_id,
            )[i]).player_id@ != player_id,
    decreases s.len(),
{
    if s.len() > 0 {
        lemma_without_player_no_rows(s.drop_first(), player_id);
    }
}

/// Deleting one player's rows cannot bring back another player's rows:
/// a player absent before a deletion is absent after it.
pub proof fn lemma_without_player_keeps_absence(
    s: Seq<MatchTicket>,
    removed: Seq<char>,
    absent: Seq<char>,
)
    requires
        forall|i: int| 0 <= i < s.len() ==> (#[trigger] s[i]).player_id@ != absent,
    ensures
        forall|i: int|
            0 <= i < spec_without_player(s, removed).len() ==> (#[trigger] spec_without_player(
                s,
                removed,
            )[i]).player_id@ != absent,
    decreases s.len(),
{
    if s.len() > 0 {
        assert(forall|i: int|
            0 <= i < s.drop_first().len() ==> (#[trigger] s.drop_first()[i]).player_id@
                != absent) by {
            assert(forall|i: int| 0 <= i < s.drop_first().len() ==> s.drop_first()[i] == s[i + 1]);
        }
        lemma_without_player_keeps_absence(s.drop_first(), removed, absent);
    }
}

/// Persist a completed pairing into the row set, as one replacement step:
/// every existing row of either matched player is deleted, then the two
/// new ready rows are appended — delete-then-insert, never an in-place
/// update.
///
/// Law carried by this contract: afterwards each of the two players has
/// exactly one row, the new ready one (same fresh match id and connect
/// URL, each player's own token), so a poll can never observe a stale
/// match for either of them.
pub fn persist_pairing(
    store: Vec<MatchTicket>,
    match_id: &String,
    player_a: String,
    player_b: String,
    token_a: String,
    token_b: String,
    connect_url: &String,
    now: u64,
) -> (r: Vec<MatchTicket>)
    requires
        player_a@ != player_b@,
    ensures
        ({
            let cleaned = spec_without_player(spec_without_player(store@, player_a@), player_b@);
            let row_a = spec_ready_ticket(*match_id, player_a, *connect_url, token_a, now);
            let row_b = spec_ready_ticket(*match_id, player_b, *connect_url, token_b, now);
            &&& r@ == cleaned.push(row_a).push(row_b)
            &&& r@.len() == cleaned.len() + 2
            &&& row_a.wf() && row_b.wf()
            &&& forall|i: int|
                0 <= i < r@.len() ==> ((#[trigger] r@[i]).player_id@ == player_a@ <==> i == r@.len()
                    - 2)
            &&& forall|i: int|
                0 <= i < r@.len() ==> ((#[trigger] r@[i]).player_id@ == player_b@ <==> i == r@.len()
                    - 1)
        }),
{
    let ghost rows = store@;
    let cleaned = delete_for_player(delete_for_player(store, &player_a), &player_b);
    let t_a = ready_ticket(match_id, player_a, connect_url.clone(), token_a, now);
    let t_b = ready_ticket(match_id, player_b, connect_url.clone(), token_b, now);
    let mut r = cleaned;
    r.push(t_a);
    r.push(t_b);
    proof {
        let once = spec_without_player(rows, t_a.player_id@);
        lemma_without_player_no_rows(rows, t_a.player_id@);
        lemma_without_player_keeps_absence(once, t_b.player_id@, t_a.player_id@);
        lemma_without_player_no_rows(once, t_b.player_id@);
    }
    r
}

/// Whether row `i` is a ready ticket of `player_id`.
pub open spec fn spec_ready_for(s: Seq<MatchTicket>, player_id: Seq<char>, i: int) -> bool {
    0 <= i < s.len() && s[i].player_id@ == player_id && s[i].status == TicketStatus::Ready
}

/// The poll a matchmaking caller makes: among the rows, the most recent
/// ready ticket of `player_id` by creation time, as an index into the
/// rows; `None` means the caller is still searching.
pub fn latest_ready(store: &Vec<MatchTicket>, player_id: &String) -> (r: Option<usize>)
    ensures
        match r {
            Some(i) => spec_ready_for(store@, player_id@, i as int) && forall|j: int|
                spec_ready_for(store@, player_id@, j) ==> store@[j].created_at
                    <= store@[i as int].created_at,
            None => forall|j: int| !spec_ready_for(store@, player_id@, j),
        },
{
    let mut best: Option<usize> = None;
    let mut i: usize = 0;
    while i < store.len()
        invariant
            i <= store@.len(),
            match best {
                Some(b) => spec_ready_for(store@, player_id@, b as int) && forall|j: int|
                    j < i && spec_ready_for(store@, player_id@, j) ==> store@[j].created_at
                        <= store@[b as int].created_at,
                None => forall|j: int| j < i ==> !spec_ready_for(store@, player_id@, j),
            },
        decreases store@.len() - i,
    {
        let t = &store[i];
        let is_candidate = matches!(t.status, TicketStatus::Ready) && t.player_id == *player_id;
        if is_candidate {
            match best {
                Some(b) => {
                    if store[b].created_at <= t.created_at {
                        best = Some(i);
                    }
                },
                None => {
                    best = Some(i);
                },
            }
        }
        i += 1;
    }
    best
}

} // verus!
