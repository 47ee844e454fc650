//! The connection dispatcher.
//!
//! The dispatcher turns a sequence of incoming transport connections into
//! isolated units of work: one unit per connection, each driving the
//! lifecycle of [`crate::machine`] — connect once, then repeated
//! decode/respond/encode cycles — against one shared [`HttpService`].
//!
//! [`run_connection`] is one unit; [`dispatch`] accepts a whole sequence of
//! connections and runs a unit for each. Everything a unit reports is
//! constrained by [`conn_report_ok`], which speaks only of that connection's
//! own input and the shared service: connections cannot interfere, and a
//! connection whose setup fails is simply closed while the dispatcher goes on
//! accepting.
//!
//! The transport itself is outside this crate: whatever reads bytes hands in
//! each connection's decoded requests in arrival order as a
//! [`ConnectionInput`], and writes the reported responses back in the order
//! they stand in the report.

use vstd::prelude::*;

use crate::machine::{
    count_events, lemma_count_events_snoc, lemma_run_events_snoc, run_events, step, Event, Phase,
};
use crate::message::{Request, Response};
use crate::service::{ConnectError, HttpService, RespondError};

verus! {

/// What one transport connection delivers: the requests decoded from its
/// byte stream, in arrival order, and whether after them the stream ends in a
/// malformed or truncated request rather than a clean end-of-stream.
pub struct ConnectionInput {
    /// The requests decoded from the connection, in arrival order.
    pub requests: Vec<Request>,
    /// Whether decoding fails after the listed requests.
    pub truncated: bool,
}

/// How one connection's unit of work ended.
#[derive(Clone, Copy, Debug, PartialEq, Eq, Structural)]
pub enum Outcome {
    /// Per-connection setup failed; the connection was closed with no
    /// response written.
    FailedConnect,
    /// The byte stream ended cleanly and every decoded request was answered.
    Closed,
    /// Decoding or responding failed mid-connection; the connection was
    /// closed after the responses written so far.
    Failed,
}

/// The report of one connection's unit: how it ended and the responses
/// written back onto the connection, in the order they went out.
pub struct ConnReport {
    /// The terminal state of the unit.
    pub outcome: Outcome,
    /// The responses written back, in write-back order.
    pub responses: Vec<Response>,
}

/// The service answered a prefix of the connection's requests, in order.
///
/// `chain` is the connection state as it evolved: `chain[0]` came from
/// `connect`, and the `i`-th response took the state from `chain[i]` to
/// `chain[i + 1]`. Response `i` answers request `i`: write-back order is
/// receipt order.
pub open spec fn serves_prefix<S: HttpService>(
    s: S,
    reqs: Seq<Request>,
    chain: Seq<S::Connection>,
    resps: Seq<Response>,
) -> bool {
    &&& chain.len() == resps.len() + 1
    &&& resps.len() <= reqs.len()
    &&& s.connect_post(Ok(chain[0]))
    &&& forall|i: int|
        0 <= i < resps.len() ==> #[trigger] s.respond_post(
            chain[i],
            reqs[i],
            chain[i + 1],
            Ok(resps[i]),
        )
}

/// The terminal lifecycle phase reporting the given outcome.
pub open spec fn phase_of(outcome: Outcome) -> Phase {
    match outcome {
        Outcome::FailedConnect => Phase::FailedConnect,
        Outcome::Closed => Phase::Closed,
        Outcome::Failed => Phase::Failed,
    }
}

/// The per-connection contract: what a unit's report may look like, given
/// only that connection's own input and the shared service.
///
/// - A unit ends `FailedConnect` only when `connect` can fail, and then no
///   response was written.
/// - A unit ends `Closed` only on a clean end-of-stream, and then every
///   request was answered, in order.
/// - A unit ends `Failed` only when the stream was truncated after all
///   requests (a decode failure), or when `respond` could fail on the first
///   unanswered request; the responses before the failure were written, in
///   order.
pub open spec fn conn_report_ok<S: HttpService>(
    s: S,
    reqs: Seq<Request>,
    truncated: bool,
    report: ConnReport,
    chain: Seq<S::Connection>,
) -> bool {
    match report.outcome {
        Outcome::FailedConnect => {
            &&& report.responses@.len() == 0
            &&& exists|e: ConnectError| #[trigger] s.connect_post(Err(e))
        },
        Outcome::Closed => {
            &&& !truncated
            &&& report.responses@.len() == reqs.len()
            &&& serves_prefix(s, reqs, chain, report.responses@)
        },
        Outcome::Failed => {
            &&& serves_prefix(s, reqs, chain, report.responses@)
            &&& if report.responses@.len() == reqs.len() {
                truncated
            } else {
                exists|c2: S::Connection, e: RespondError| #[trigger] s.respond_post(
                    chain.last(),
                    reqs[report.responses@.len() as int],
                    c2,
                    Err(e),
                )
            }
        },
    }
}

/// No cross-connection interference: the per-connection contract never
/// mentions any other connection.
///
/// A report admissible for a connection's input under one incoming sequence
/// is admissible for the same input wherever it stands in any other incoming
/// sequence: what happens on a connection — including how long its service
/// calls take, since the contract holds whatever those calls did — has no
/// bearing on what another connection may observe.
pub proof fn lemma_no_cross_connection_interference<S: HttpService>(
    s: S,
    u: Seq<ConnectionInput>,
    v: Seq<ConnectionInput>,
    j: int,
    k: int,
    report: ConnReport,
    chain: Seq<S::Connection>,
)
    requires
        0 <= j < u.len(),
        0 <= k < v.len(),
        u[j] == v[k],
        conn_report_ok(s, u[j].requests@, u[j].truncated, report, chain),
    ensures
        conn_report_ok(s, v[k].requests@, v[k].truncated, report, chain),
{
}

/// Drives one connection's unit of work to its terminal state.
///
/// Calls `connect` exactly once; on failure the connection is closed with no
/// request attempted. On success, answers the connection's requests one at a
/// time, writing each response back before decoding the next request, until
/// the stream ends — cleanly (`Closed`) or not (`Failed`).
///
/// Besides the report, returns (as ghost data) the chain of connection
/// states the service went through, which witnesses `conn_report_ok`.
pub fn run_connection<S: HttpService>(service: &S, input: ConnectionInput) -> (r: (
    ConnReport,
    Ghost<Seq<S::Connection>>,
))
    requires
        forall|c: S::Connection, i: int|
            0 <= i < input.requests@.len() ==> #[trigger] service.respond_pre(
                c,
                input.requests@[i],
            ),
    ensures
        conn_report_ok(*service, input.requests@, input.truncated, r.0, r.1@),
        exists|log: Seq<Event>|
            {
                &&& #[trigger] run_events(Phase::Accepted, log) == Some(phase_of(r.0.outcome))
                &&& count_events(log, Event::Encoded) == r.0.responses@.len()
            },
{
    let ConnectionInput { mut requests, truncated } = input;
    let ghost all_reqs = requests@;
    let ghost mut log: Seq<Event> = Seq::empty();
    let mut phase = step(Phase::Accepted, Event::Spawn);
    proof {
        lemma_run_events_snoc(Phase::Accepted, log, Event::Spawn, Phase::Accepted);
        lemma_count_events_snoc(log, Event::Spawn, Event::Encoded);
        log = log.push(Event::Spawn);
    }
    match service.connect() {
        Err(e) => {
            phase = step(phase, Event::ConnectFailed);
            proof {
                assert(service.connect_post(Err(e)));
                lemma_run_events_snoc(Phase::Accepted, log, Event::ConnectFailed, Phase::Connecting);
                lemma_count_events_snoc(log, Event::ConnectFailed, Event::Encoded);
                log = log.push(Event::ConnectFailed);
                assert(run_events(Phase::Accepted, log) == Some(Phase::FailedConnect));
            }
            let report = ConnReport { outcome: Outcome::FailedConnect, responses: Vec::new() };
            (report, Ghost(Seq::empty()))
        },
        Ok(mut conn) => {
            phase = step(phase, Event::ConnectOk);
            proof {
                lemma_run_events_snoc(Phase::Accepted, log, Event::ConnectOk, Phase::Connecting);
                lemma_count_events_snoc(log, Event::ConnectOk, Event::Encoded);
                log = log.push(Event::ConnectOk);
            }
            phase = step(phase, Event::ReadBegan);
            proof {
                lemma_run_events_snoc(Phase::Accepted, log, Event::ReadBegan, Phase::Ready);
                lemma_count_events_snoc(log, Event::ReadBegan, Event::Encoded);
                log = log.push(Event::ReadBegan);
            }
            let ghost mut chain: Seq<S::Connection> = seq![conn];
            let mut responses: Vec<Response> = Vec::new();
            while requests.len() > 0
                invariant
                    all_reqs == input.requests@,
                    phase == Phase::Decoding,
                    run_events(Phase::Accepted, log) == Some(Phase::Decoding),
                    count_events(log, Event::Encoded) == responses@.len(),
                    requests@ == all_reqs.skip(responses@.len() as int),
                    responses@.len() <= all_reqs.len(),
                    chain.len() == responses@.len() + 1,
                    chain.last() == conn,
                    service.connect_post(Ok(chain[0])),
                    forall|i: int|
                        0 <= i < responses@.len() ==> #[trigger] service.respond_post(
                            chain[i],
                            all_reqs[i],
                            chain[i + 1],
                            Ok(responses@[i]),
                        ),
                    forall|c: S::Connection, i: int|
                        0 <= i < all_reqs.len() ==> #[trigger] service.respond_pre(c, all_reqs[i]),
                decreases requests@.len(),
            {
                let ghost k = responses@.len() as int;
                let req = requests.remove(0);
                proof {
                    assert(req == all_reqs[k]);
                    assert(requests@ =~= all_reqs.skip(k + 1));
                    assert(service.respond_pre(conn, all_reqs[k]));
                }
                phase = step(phase, Event::Decoded);
                proof {
                    lemma_run_events_snoc(Phase::Accepted, log, Event::Decoded, Phase::Decoding);
                    lemma_count_events_snoc(log, Event::Decoded, Event::Encoded);
                    log = log.push(Event::Decoded);
                }
                let ghost pre_conn = conn;
                match service.respond(&mut conn, req) {
                    Ok(resp) => {
                        phase = step(phase, Event::RespondOk);
                        proof {
                            lemma_run_events_snoc(
                                Phase::Accepted,
                                log,
                                Event::RespondOk,
                                Phase::Responding,
                            );
                            lemma_count_events_snoc(log, Event::RespondOk, Event::Encoded);
                            log = log.push(Event::RespondOk);
                        }
                        responses.push(resp);
                        proof {
                            chain = chain.push(conn);
                        }
                        phase = step(phase, Event::Encoded);
                        proof {
                            lemma_run_events_snoc(
                                Phase::Accepted,
                                log,
                                Event::Encoded,
                                Phase::Encoding,
                            );
                            lemma_count_events_snoc(log, Event::Encoded, Event::Encoded);
                            log = log.push(Event::Encoded);
                        }
                    },
                    Err(e) => {
                        phase = step(phase, Event::RespondFailed);
                        proof {
                            assert(responses@.len() < all_reqs.len());
                            assert(chain.last() == pre_conn);
                            assert(service.respond_post(chain.last(), all_reqs[k], conn, Err(e)));
                            lemma_run_events_snoc(
                                Phase::Accepted,
                                log,
                                Event::RespondFailed,
                                Phase::Responding,
                            );
                            lemma_count_events_snoc(log, Event::RespondFailed, Event::Encoded);
                            log = log.push(Event::RespondFailed);
                            assert(run_events(Phase::Accepted, log) == Some(Phase::Failed));
                        }
                        let report = ConnReport { outcome: Outcome::Failed, responses };
                        return (report, Ghost(chain));
                    },
                }
            }
            if truncated {
                phase = step(phase, Event::DecodeFailed);
                proof {
                    lemma_run_events_snoc(Phase::Accepted, log, Event::DecodeFailed, Phase::Decoding);
                    lemma_count_events_snoc(log, Event::DecodeFailed, Event::Encoded);
                    log = log.push(Event::DecodeFailed);
                    assert(run_events(Phase::Accepted, log) == Some(Phase::Failed));
                }
                let report = ConnReport { outcome: Outcome::Failed, responses };
                (report, Ghost(chain))
            } else {
                phase = step(phase, Event::EndOfStream);
                proof {
                    lemma_run_events_snoc(Phase::Accepted, log, Event::EndOfStream, Phase::Decoding);
                    lemma_count_events_snoc(log, Event::EndOfStream, Event::Encoded);
                    log = log.push(Event::EndOfStream);
                    assert(run_events(Phase::Accepted, log) == Some(Phase::Closed));
                }
                let report = ConnReport { outcome: Outcome::Closed, responses };
                (report, Ghost(chain))
            }
        },
    }
}

/// Accepts a whole sequence of incoming connections and runs one isolated
/// unit of work for each.
///
/// Fault isolation: there is one report per accepted connection — a
/// connection whose setup or handling fails never stops the dispatcher from
/// serving the others or from accepting further connections — and each
/// report is constrained by `conn_report_ok` over that connection's own
/// input alone, so no connection's outcome depends on another's traffic.
pub fn dispatch<S: HttpService>(service: &S, inputs: Vec<ConnectionInput>) -> (r: (
    Vec<ConnReport>,
    Ghost<Seq<Seq<S::Connection>>>,
))
    requires
        forall|c: S::Connection, k: int, i: int|
            0 <= k < inputs@.len() && 0 <= i < inputs@[k].requests@.len()
                ==> #[trigger] service.respond_pre(c, inputs@[k].requests@[i]),
    ensures
        r.0@.len() == inputs@.len(),
        r.1@.len() == inputs@.len(),
        forall|k: int|
            0 <= k < inputs@.len() ==> conn_report_ok(
                *service,
                (#[trigger] inputs@[k]).requests@,
                inputs@[k].truncated,
                r.0@[k],
                r.1@[k],
            ),
{
    let mut inputs = inputs;
    let ghost all = inputs@;
    let mut reports: Vec<ConnReport> = Vec::new();
    let ghost mut chains: Seq<Seq<S::Connection>> = Seq::empty();
    proof {
        assert(inputs@ =~= all.skip(0));
    }
    while inputs.len() > 0
        invariant
            inputs@ == all.skip(reports@.len() as int),
            reports@.len() <= all.len(),
            chains.len() == reports@.len(),
            forall|k: int|
                0 <= k < reports@.len() ==> conn_report_ok(
                    *service,
                    (#[trigger] all[k]).requests@,
                    all[k].truncated,
                    reports@[k],
                    chains[k],
                ),
            forall|c: S::Connection, k: int, i: int|
                0 <= k < all.len() && 0 <= i < all[k].requests@.len()
                    ==> #[trigger] service.respond_pre(c, all[k].requests@[i]),
        decreases inputs@.len(),
    {
        let ghost k = reports@.len() as int;
        let input = inputs.remove(0);
        proof {
            assert(input == all[k]);
            assert(inputs@ =~= all.skip(k + 1));
            assert forall|c: S::Connection, i: int|
                0 <= i < input.requests@.len() implies #[trigger] service.respond_pre(
                c,
                input.requests@[i],
            ) by {
                assert(service.respond_pre(c, all[k].requests@[i]));
            }
        }
        let (report, chain) = run_connection(service, input);
        reports.push(report);
        proof {
            chains = chains.push(chain@);
            assert(conn_report_ok(*service, all[k].requests@, all[k].truncated, reports@[k as int], chains[k as int]));
        }
    }
    proof {
        assert(reports@.len() == all.len());
    }
    (reports, Ghost(chains))
}

} // verus!
