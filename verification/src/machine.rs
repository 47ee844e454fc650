//! The per-connection lifecycle of the dispatcher, as a state machine.
//!
//! Each accepted transport connection is handled by one independent unit of
//! work, whose life is:
//!
//! ```text
//! Accepted -> Connecting -> FailedConnect (terminal)
//!                        -> Ready -> Decoding -> Responding -> Encoding
//!                                       ^                         |
//!                                       +-------------------------+
//!                                    -> Closed (terminal)
//!                           (any step may fail -> Failed, terminal)
//! ```
//!
//! [`spec_step`] is the transition relation, [`step`] its executable twin,
//! and the lemmas below establish the ordering discipline: a unit never has
//! more than one request in flight, so responses are written back strictly in
//! the order their requests were decoded.

use vstd::prelude::*;

verus! {

/// The phase a connection's unit of work is in.
#[derive(Clone, Copy, Debug, PartialEq, Eq, Structural)]
pub enum Phase {
    /// The transport connection has been accepted; no unit is running yet.
    Accepted,
    /// The unit is waiting for the service's per-connection setup.
    Connecting,
    /// Per-connection setup failed; the connection was closed without any
    /// request being attempted. Terminal.
    FailedConnect,
    /// Setup succeeded; the unit is about to read from the connection.
    Ready,
    /// The unit is decoding the next request from the connection's bytes.
    Decoding,
    /// The unit is waiting for the service to respond to a decoded request.
    Responding,
    /// The unit is writing a response back onto the connection.
    Encoding,
    /// The connection's byte stream reached a clean end and the connection
    /// was closed. Terminal, and not an error.
    Closed,
    /// Decoding, responding or encoding failed; only this connection's unit
    /// is discarded. Terminal.
    Failed,
}

/// An observation that moves a connection's unit forward.
#[derive(Clone, Copy, Debug, PartialEq, Eq, Structural)]
pub enum Event {
    /// The unit was spawned for the accepted connection.
    Spawn,
    /// Per-connection setup succeeded.
    ConnectOk,
    /// Per-connection setup failed.
    ConnectFailed,
    /// The unit began reading the next request.
    ReadBegan,
    /// A complete request was decoded.
    Decoded,
    /// The byte stream ended cleanly between requests.
    EndOfStream,
    /// The byte stream held a malformed or truncated request.
    DecodeFailed,
    /// The service produced a response.
    RespondOk,
    /// The service's respond call itself failed.
    RespondFailed,
    /// The response was written back onto the connection.
    Encoded,
    /// Writing the response back failed.
    EncodeFailed,
}

/// The transition relation: the phase after observing `e` in phase `p`, or
/// `None` when `e` cannot be observed in `p`.
pub open spec fn spec_step(p: Phase, e: Event) -> Option<Phase> {
    match (p, e) {
        (Phase::Accepted, Event::Spawn) => Some(Phase::Connecting),
        (Phase::Connecting, Event::ConnectOk) => Some(Phase::Ready),
        (Phase::Connecting, Event::ConnectFailed) => Some(Phase::FailedConnect),
        (Phase::Ready, Event::ReadBegan) => Some(Phase::Decoding),
        (Phase::Decoding, Event::Decoded) => Some(Phase::Responding),
        (Phase::Decoding, Event::EndOfStream) => Some(Phase::Closed),
        (Phase::Decoding, Event::DecodeFailed) => Some(Phase::Failed),
        (Phase::Responding, Event::RespondOk) => Some(Phase::Encoding),
        (Phase::Responding, Event::RespondFailed) => Some(Phase::Failed),
        (Phase::Encoding, Event::Encoded) => Some(Phase::Decoding),
        (Phase::Encoding, Event::EncodeFailed) => Some(Phase::Failed),
        _ => None,
    }
}

/// Takes one legal step of the lifecycle.
pub fn step(p: Phase, e: Event) -> (q: Phase)
    requires
        spec_step(p, e) is Some,
    ensures
        spec_step(p, e) == Some(q),
{
    match (p, e) {
        (Phase::Accepted, Event::Spawn) => Phase::Connecting,
        (Phase::Connecting, Event::ConnectOk) => Phase::Ready,
        (Phase::Connecting, Event::ConnectFailed) => Phase::FailedConnect,
        (Phase::Ready, Event::ReadBegan) => Phase::Decoding,
        (Phase::Decoding, Event::Decoded) => Phase::Responding,
        (Phase::Decoding, Event::EndOfStream) => Phase::Closed,
        (Phase::Decoding, Event::DecodeFailed) => Phase::Failed,
        (Phase::Responding, Event::RespondOk) => Phase::Encoding,
        (Phase::Responding, Event::RespondFailed) => Phase::Failed,
        (Phase::Encoding, Event::Encoded) => Phase::Decoding,
        _ => Phase::Failed,
    }
}

/// The phase after observing a whole sequence of events from phase `p`, or
/// `None` when some event in the sequence is not legal where it occurs.
pub open spec fn run_events(p: Phase, events: Seq<Event>) -> Option<Phase>
    decreases events.len(),
{
    if events.len() == 0 {
        Some(p)
    } else {
        match spec_step(p, events[0]) {
            Some(q) => run_events(q, events.skip(1)),
            None => None,
        }
    }
}

/// How many times `e` occurs in `events`.
pub open spec fn count_events(events: Seq<Event>, e: Event) -> int
    decreases events.len(),
{
    if events.len() == 0 {
        0
    } else {
        (if events[0] == e {
            1int
        } else {
            0int
        }) + count_events(events.skip(1), e)
    }
}

/// How many requests a unit in phase `p` has decoded but not yet answered on
/// the wire: at most one is ever in flight.
pub open spec fn in_flight(p: Phase) -> int {
    match p {
        Phase::Responding => 1,
        Phase::Encoding => 1,
        _ => 0,
    }
}

/// Extending a legal run by one event steps from the run's end.
pub proof fn lemma_run_events_snoc(p: Phase, events: Seq<Event>, e: Event, q: Phase)
    requires
        run_events(p, events) == Some(q),
    ensures
        run_events(p, events.push(e)) == match spec_step(q, e) {
            Some(q2) => Some(q2),
            None => None::<Phase>,
        },
    decreases events.len(),
{
    reveal_with_fuel(run_events, 2);
    if events.len() == 0 {
        assert(events.push(e)[0] == e);
        assert(events.push(e).skip(1) =~= Seq::<Event>::empty());
    } else {
        let p1 = spec_step(p, events[0])->Some_0;
        assert(events.push(e)[0] == events[0]);
        assert(events.push(e).skip(1) =~= events.skip(1).push(e));
        lemma_run_events_snoc(p1, events.skip(1), e, q);
    }
}

/// Appending one event raises its own count by one and no other.
pub proof fn lemma_count_events_snoc(events: Seq<Event>, e: Event, x: Event)
    ensures
        count_events(events.push(e), x) == count_events(events, x) + (if e == x {
            1int
        } else {
            0int
        }),
    decreases events.len(),
{
    reveal_with_fuel(count_events, 2);
    if events.len() == 0 {
        assert(events.push(e)[0] == e);
        assert(events.push(e).skip(1) =~= Seq::<Event>::empty());
    } else {
        assert(events.push(e)[0] == events[0]);
        assert(events.push(e).skip(1) =~= events.skip(1).push(e));
        lemma_count_events_snoc(events.skip(1), e, x);
    }
}

/// A legal run stays legal over any prefix of its events.
pub proof fn lemma_run_prefix(p: Phase, events: Seq<Event>, i: int)
    requires
        run_events(p, events) is Some,
        0 <= i <= events.len(),
    ensures
        run_events(p, events.take(i)) is Some,
    decreases i,
{
    if i == 0 {
        assert(events.take(0) =~= Seq::<Event>::empty());
    } else {
        let q = spec_step(p, events[0])->Some_0;
        assert(events.take(i)[0] == events[0]);
        assert(events.take(i).skip(1) =~= events.skip(1).take(i - 1));
        lemma_run_prefix(q, events.skip(1), i - 1);
    }
}

/// Request/response accounting along a legal run: the responses written,
/// plus the one request possibly in flight, are exactly the requests decoded.
/// A run that ends in `Failed` may additionally have lost the one request in
/// flight when it failed.
pub proof fn lemma_accounting(p: Phase, events: Seq<Event>, q: Phase)
    requires
        run_events(p, events) == Some(q),
        !(p is Failed),
    ensures
        !(q is Failed) ==> count_events(events, Event::Encoded) + in_flight(q) == count_events(
            events,
            Event::Decoded,
        ) + in_flight(p),
        q is Failed ==> {
            let d = count_events(events, Event::Decoded) + in_flight(p);
            let w = count_events(events, Event::Encoded);
            w == d || w + 1 == d
        },
    decreases events.len(),
{
    if events.len() == 0 {
    } else {
        let p1 = spec_step(p, events[0])->Some_0;
        if p1 is Failed {
            lemma_failed_run_is_empty(events.skip(1), q);
            assert(count_events(events.skip(1), Event::Decoded) == 0);
            assert(count_events(events.skip(1), Event::Encoded) == 0);
        } else {
            lemma_accounting(p1, events.skip(1), q);
        }
    }
}

/// From `Failed`, the only legal run is the empty one.
proof fn lemma_failed_run_is_empty(events: Seq<Event>, q: Phase)
    requires
        run_events(Phase::Failed, events) == Some(q),
    ensures
        events.len() == 0,
        q is Failed,
{
}

/// Per-connection ordering: at no point of a legal run has a unit written
/// more responses than it has decoded requests, nor decoded a second request
/// before the response to the first was written back. Responses therefore go
/// out strictly in the order their requests arrived.
pub proof fn lemma_write_back_preserves_order(events: Seq<Event>, i: int)
    requires
        run_events(Phase::Accepted, events) is Some,
        0 <= i <= events.len(),
    ensures
        count_events(events.take(i), Event::Encoded) <= count_events(
            events.take(i),
            Event::Decoded,
        ) <= count_events(events.take(i), Event::Encoded) + 1,
{
    lemma_run_prefix(Phase::Accepted, events, i);
    let q = run_events(Phase::Accepted, events.take(i))->Some_0;
    lemma_accounting(Phase::Accepted, events.take(i), q);
}

/// A connection that closes cleanly has written exactly one response for
/// every request it decoded.
pub proof fn lemma_closed_answers_every_request(events: Seq<Event>)
    requires
        run_events(Phase::Accepted, events) == Some(Phase::Closed),
    ensures
        count_events(events, Event::Encoded) == count_events(events, Event::Decoded),
{
    lemma_accounting(Phase::Accepted, events, Phase::Closed);
}

} // verus!
