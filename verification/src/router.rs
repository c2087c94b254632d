//! The connection router: a byte-transparent reverse proxy by match id.
//!
//! The caller accepts a public WebSocket upgrade addressed by match id,
//! resolves the worker's port through the shared port table, opens a
//! second, purely local connection to that worker, and then pumps frames
//! in both directions. Every routing and pumping decision is made here on
//! plain values; the sockets stay with the caller. The router never
//! parses, buffers semantically or rewrites a payload: data frames pass
//! through unmodified and in order, and a close on either side stops both
//! pump loops.

use vstd::prelude::*;
use vstd::string::StringExecFns;
use crate::digits::{push_decimal, spec_decimal};
use crate::ports::PortTable;

verus! {

/// A WebSocket frame as the router sees it: an opaque text or binary
/// payload to pass through, a close, or any other control frame (ping,
/// pong), which the pump does not forward.
pub enum Frame {
    Text(String),
    Binary(Vec<u8>),
    Close,
    Control,
}

/// What one pump loop does with one received frame: forward it to the
/// other side unmodified, close the other side and stop, or skip it.
pub enum PumpAction {
    Forward(Frame),
    CloseOther,
    Skip,
}

/// A frame that carries payload.
pub open spec fn spec_is_data(f: Frame) -> bool {
    f matches Frame::Text(_) || f matches Frame::Binary(_)
}

/// Everything one pump loop forwards from a stream of received frames:
/// data frames unmodified and in order, nothing after a close, control
/// frames dropped.
pub open spec fn spec_pump(s: Seq<Frame>) -> Seq<Frame>
    decreases s.len(),
{
    if s.len() == 0 {
        Seq::<Frame>::empty()
    } else {
        match s[0] {
            Frame::Close => Seq::<Frame>::empty(),
            Frame::Control => spec_pump(s.drop_first()),
            Frame::Text(t) => seq![s[0]] + spec_pump(s.drop_first()),
            Frame::Binary(b) => seq![s[0]] + spec_pump(s.drop_first()),
        }
    }
}

/// Index of the first close frame, or the length if none: how far a pump
/// loop reads its stream.
pub open spec fn spec_first_close(s: Seq<Frame>) -> int
    decreases s.len(),
{
    if s.len() == 0 {
        0
    } else if (s[0] matches Frame::Close) {
        0
    } else {
        1 + spec_first_close(s.drop_first())
    }
}

/// The decision of one pump-loop iteration, exactly as the bridge treats
/// each frame: payloads cross unmodified, a close ends both legs, other
/// control frames are ignored.
pub fn pump_action(frame: Frame) -> (r: PumpAction)
    ensures
        frame matches Frame::Text(t) ==> r == PumpAction::Forward(Frame::Text(t)),
        frame matches Frame::Binary(b) ==> r == PumpAction::Forward(Frame::Binary(b)),
        frame matches Frame::Close ==> r == PumpAction::CloseOther,
        frame matches Frame::Control ==> r == PumpAction::Skip,
{
    match frame {
        Frame::Text(t) => PumpAction::Forward(Frame::Text(t)),
        Frame::Binary(b) => PumpAction::Forward(Frame::Binary(b)),
        Frame::Close => PumpAction::CloseOther,
        Frame::Control => PumpAction::Skip,
    }
}

/// Run one pump direction over a whole received stream: returns exactly
/// the frames the other side observes, in order.
pub fn pump_frames(frames: Vec<Frame>) -> (r: Vec<Frame>)
    ensures
        r@ == spec_pump(frames@),
{
    let ghost all = frames@;
    let mut rest = frames;
    let mut out: Vec<Frame> = Vec::new();
    let mut closed = false;
    while !closed && rest.len() > 0
        invariant
            closed ==> out@ == spec_pump(all),
            !closed ==> out@ + spec_pump(rest@) == spec_pump(all),
        decreases rest@.len(),
    {
        let ghost rest_pre = rest@;
        let f = rest.remove(0);
        proof {
            assert(rest@ =~= rest_pre.drop_first());
        }
        match pump_action(f) {
            PumpAction::Forward(g) => {
                out.push(g);
                proof {
                    assert(spec_pump(rest_pre) =~= seq![rest_pre[0]] + spec_pump(
                        rest_pre.drop_first(),
                    ));
                    assert(out@ + spec_pump(rest@) =~= spec_pump(all));
                }
            },
            PumpAction::CloseOther => {
                closed = true;
                proof {
                    assert(spec_pump(rest_pre) =~= Seq::<Frame>::empty());
                    assert(out@ + spec_pump(rest_pre) =~= out@);
                }
            },
            PumpAction::Skip => {
                proof {
                    assert(spec_pump(rest_pre) == spec_pump(rest_pre.drop_first()));
                }
            },
        }
    }
    proof {
        if !closed {
            assert(out@ =~= out@ + spec_pump(rest@));
        }
    }
    out
}

/// Law: byte transparency of the bridge. What a pump loop forwards is
/// exactly the data frames received before the first close, unmodified
/// and in their original order — the other side of the bridge observes
/// the sender's payloads, nothing else, with no reordering. The same holds
/// of both directions, since both legs run this pump.
pub proof fn lemma_pump_byte_transparent(s: Seq<Frame>)
    ensures
        0 <= spec_first_close(s) <= s.len(),
        spec_pump(s) == s.subrange(0, spec_first_close(s)).filter(|f: Frame| spec_is_data(f)),
    decreases s.len(),
{
    let pred = |f: Frame| spec_is_data(f);
    if s.len() == 0 {
        assert(s.subrange(0, 0) =~= Seq::<Frame>::empty());
        assert(Seq::<Frame>::empty().filter(pred) =~= Seq::<Frame>::empty()) by {
            reveal(Seq::filter);
        }
    } else if (s[0] matches Frame::Close) {
        assert(s.subrange(0, 0) =~= Seq::<Frame>::empty());
        assert(Seq::<Frame>::empty().filter(pred) =~= Seq::<Frame>::empty()) by {
            reveal(Seq::filter);
        }
    } else {
        let tail = s.drop_first();
        lemma_pump_byte_transparent(tail);
        let fc: int = spec_first_close(s);
        assert(fc == 1 + spec_first_close(tail));
        let head = s.subrange(0, 1);
        assert(s.subrange(0, fc) =~= head + tail.subrange(0, fc - 1));
        Seq::filter_distributes_over_add(head, tail.subrange(0, fc - 1), pred);
        reveal_with_fuel(Seq::filter, 2);
        assert(head.len() == 1);
        assert(head.last() == s[0]);
        assert(head.drop_last() =~= Seq::<Frame>::empty());
        if pred(s[0]) {
            assert(head.filter(pred) =~= seq![s[0]]);
        } else {
            assert(head.filter(pred) =~= Seq::<Frame>::empty());
        }
        if (s[0] matches Frame::Control) {
            assert(spec_pump(s) == spec_pump(tail));
            assert(s.subrange(0, fc).filter(pred) =~= tail.subrange(0, fc - 1).filter(pred));
        } else {
            assert(spec_is_data(s[0]));
            assert(s.subrange(0, fc).filter(pred) =~= seq![s[0]] + tail.subrange(0, fc - 1).filter(
                pred,
            ));
        }
    }
}

/// What the router opens toward the worker: a purely local WebSocket URL
/// with the client's token forwarded verbatim, never validated here.
pub open spec fn spec_local_worker_url(port: u16, token: Seq<char>) -> Seq<char> {
    "ws://127.0.0.1:"@ + spec_decimal(port as nat) + "/?token="@ + token
}

/// Build the local worker URL for a resolved port.
pub fn local_worker_url(port: u16, token: &String) -> (r: String)
    ensures
        r@ == spec_local_worker_url(port, token@),
{
    let mut r = String::from_str("ws://127.0.0.1:");
    push_decimal(&mut r, port);
    r.append("/?token=");
    r.append(token.as_str());
    proof {
        assert(r@ =~= spec_local_worker_url(port, token@));
    }
    r
}

/// Why an upgrade request was rejected: no tracked worker serves the
/// requested match.
#[derive(Clone, Copy, Debug, PartialEq, Eq, Structural)]
pub enum RouteError {
    MatchNotFound,
}

impl RouteError {
    /// The response body a rejected upgrade gets.
    pub fn message(&self) -> (r: String)
        ensures
            r@ == "Match not found"@,
    {
        String::from_str("Match not found")
    }

    /// The HTTP status of a rejected upgrade.
    pub fn http_status(&self) -> (r: u16)
        ensures
            r == 404,
    {
        404
    }
}

/// A resolved proxy target: the worker's port and the local URL to open.
pub struct ProxyPlan {
    pub port: u16,
    pub local_url: String,
}

/// Resolve an upgrade request: find the worker serving `match_id` by
/// scanning the table, and build the internal URL, forwarding the token
/// query parameter verbatim (absent means empty, as an absent query
/// defaults to the empty token). Rejects with `MatchNotFound` exactly
/// when no tracked worker serves the match.
pub fn plan_proxy(table: &PortTable, match_id: &String, token: Option<String>) -> (r: Result<
    ProxyPlan,
    RouteError,
>)
    ensures
        match r {
            Ok(plan) => table.spec_maps_to(plan.port, match_id@) && plan.local_url@
                == spec_local_worker_url(
                plan.port,
                match token {
                    Some(t) => t@,
                    None => Seq::<char>::empty(),
                },
            ),
            Err(e) => e == RouteError::MatchNotFound && forall|i: int|
                0 <= i < table.entries@.len() ==> (#[trigger] table.entries@[i]).match_id@
                    != match_id@,
        },
{
    match table.port_for_match(match_id) {
        Some(port) => {
            let tok = match token {
                Some(t) => t,
                None => String::new(),
            };
            Ok(ProxyPlan { port, local_url: local_worker_url(port, &tok) })
        },
        None => Err(RouteError::MatchNotFound),
    }
}

} // verus!
