//! The dispatcher's scenarios: ordering, fault isolation, pipelining.

use http_service::body::{Body, ByteSource};
use http_service::dispatch::{dispatch, run_connection, ConnectionInput, Outcome};
use http_service::machine::{step, Event, Phase};
use http_service::message::{Method, Request};
use http_service::service::{EchoService, FixedService, RejectingService};

fn get_with_body(payload: &[u8]) -> Request {
    Request::with_body(Method::Get, b"/".to_vec(), Body::from_bytes(payload.to_vec()))
}

fn drained(mut body: Body) -> Vec<u8> {
    body.drain_to_buffer().unwrap()
}

#[test]
fn machine_walks_the_lifecycle() {
    let p = step(Phase::Accepted, Event::Spawn);
    assert_eq!(p, Phase::Connecting);
    let p = step(p, Event::ConnectOk);
    assert_eq!(p, Phase::Ready);
    let p = step(p, Event::ReadBegan);
    assert_eq!(p, Phase::Decoding);
    let p = step(p, Event::Decoded);
    assert_eq!(p, Phase::Responding);
    let p = step(p, Event::RespondOk);
    assert_eq!(p, Phase::Encoding);
    let p = step(p, Event::Encoded);
    assert_eq!(p, Phase::Decoding);
    let p = step(p, Event::EndOfStream);
    assert_eq!(p, Phase::Closed);
}

#[test]
fn machine_fails_connections_in_isolation() {
    let p = step(Phase::Accepted, Event::Spawn);
    assert_eq!(step(p, Event::ConnectFailed), Phase::FailedConnect);
    assert_eq!(step(Phase::Decoding, Event::DecodeFailed), Phase::Failed);
    assert_eq!(step(Phase::Responding, Event::RespondFailed), Phase::Failed);
}

#[test]
fn scenario_hello_world() {
    // A service returning a fixed body for any request; one connection, one
    // request; the response carries exactly that body.
    let service = FixedService { payload: b"Hello, World".to_vec() };
    let input = ConnectionInput {
        requests: vec![Request::new(Method::Get, b"/".to_vec())],
        truncated: false,
    };
    let (report, _) = run_connection(&service, input);
    assert_eq!(report.outcome, Outcome::Closed);
    assert_eq!(report.responses.len(), 1);
    let mut responses = report.responses;
    let response = responses.remove(0);
    assert_eq!(response.status, 200);
    assert_eq!(drained(response.body), b"Hello, World".to_vec());
}

#[test]
fn scenario_rejected_connections_do_not_stop_the_dispatcher() {
    // connect() always fails; the dispatcher accepts 3 connections: all 3
    // are closed with no response written, and a 4th, successful connection
    // can still be accepted and served afterwards.
    let rejecting = RejectingService;
    let inputs = vec![
        ConnectionInput { requests: vec![get_with_body(b"r1")], truncated: false },
        ConnectionInput { requests: vec![get_with_body(b"r2")], truncated: false },
        ConnectionInput { requests: vec![], truncated: false },
    ];
    let (reports, _) = dispatch(&rejecting, inputs);
    assert_eq!(reports.len(), 3);
    for report in &reports {
        assert_eq!(report.outcome, Outcome::FailedConnect);
        assert!(report.responses.is_empty());
    }
    let fourth = ConnectionInput { requests: vec![get_with_body(b"still served")], truncated: false };
    let (report, _) = run_connection(&EchoService, fourth);
    assert_eq!(report.outcome, Outcome::Closed);
    assert_eq!(report.responses.len(), 1);
}

#[test]
fn scenario_two_pipelined_requests_answered_in_order() {
    // A connection sends 2 pipelined requests before reading either
    // response: exactly 2 responses come back, in request order.
    let input = ConnectionInput {
        requests: vec![get_with_body(b"first"), get_with_body(b"second")],
        truncated: false,
    };
    let (report, _) = run_connection(&EchoService, input);
    assert_eq!(report.outcome, Outcome::Closed);
    let mut responses = report.responses;
    assert_eq!(responses.len(), 2);
    assert_eq!(drained(responses.remove(0).body), b"first".to_vec());
    assert_eq!(drained(responses.remove(0).body), b"second".to_vec());
}

#[test]
fn per_connection_ordering_over_three_requests() {
    let input = ConnectionInput {
        requests: vec![get_with_body(b"R1"), get_with_body(b"R2"), get_with_body(b"R3")],
        truncated: false,
    };
    let (report, _) = run_connection(&EchoService, input);
    assert_eq!(report.outcome, Outcome::Closed);
    let mut responses = report.responses;
    assert_eq!(responses.len(), 3);
    assert_eq!(drained(responses.remove(0).body), b"R1".to_vec());
    assert_eq!(drained(responses.remove(0).body), b"R2".to_vec());
    assert_eq!(drained(responses.remove(0).body), b"R3".to_vec());
}

#[test]
fn fault_isolation_across_connections() {
    // One connection fails mid-stream (its request body's source fails, so
    // respond fails); the other connections are still served in full, and
    // every accepted connection gets a report.
    let failing_request = Request::with_body(
        Method::Post,
        b"/".to_vec(),
        Body::from_source(ByteSource { chunks: vec![], fails: true }),
    );
    let inputs = vec![
        ConnectionInput { requests: vec![get_with_body(b"ok before")], truncated: false },
        ConnectionInput { requests: vec![failing_request], truncated: false },
        ConnectionInput { requests: vec![get_with_body(b"ok after")], truncated: false },
    ];
    let (mut reports, _) = dispatch(&EchoService, inputs);
    assert_eq!(reports.len(), 3);
    assert_eq!(reports[0].outcome, Outcome::Closed);
    assert_eq!(reports[1].outcome, Outcome::Failed);
    assert!(reports[1].responses.is_empty());
    assert_eq!(reports[2].outcome, Outcome::Closed);
    assert_eq!(drained(reports.remove(0).responses.remove(0).body), b"ok before".to_vec());
    assert_eq!(drained(reports.remove(1).responses.remove(0).body), b"ok after".to_vec());
}

#[test]
fn truncated_stream_fails_after_answering_decoded_requests() {
    let input = ConnectionInput {
        requests: vec![get_with_body(b"decoded fine")],
        truncated: true,
    };
    let (report, _) = run_connection(&EchoService, input);
    assert_eq!(report.outcome, Outcome::Failed);
    let mut responses = report.responses;
    assert_eq!(responses.len(), 1);
    assert_eq!(drained(responses.remove(0).body), b"decoded fine".to_vec());
}

#[test]
fn respond_failure_keeps_earlier_responses() {
    let failing_request = Request::with_body(
        Method::Get,
        b"/".to_vec(),
        Body::from_source(ByteSource { chunks: vec![], fails: true }),
    );
    let input = ConnectionInput {
        requests: vec![get_with_body(b"answered"), failing_request, get_with_body(b"never reached")],
        truncated: false,
    };
    let (report, _) = run_connection(&EchoService, input);
    assert_eq!(report.outcome, Outcome::Failed);
    let mut responses = report.responses;
    assert_eq!(responses.len(), 1);
    assert_eq!(drained(responses.remove(0).body), b"answered".to_vec());
}

#[test]
fn clean_end_with_no_requests_closes() {
    let input = ConnectionInput { requests: vec![], truncated: false };
    let (report, _) = run_connection(&EchoService, input);
    assert_eq!(report.outcome, Outcome::Closed);
    assert!(report.responses.is_empty());
}
