//! The service contract, the simulated backend and the gateway boundary.

use http_service::body::{Body, ByteSource};
use http_service::gateway::{handle_one, GatewayBody, GatewayError};
use http_service::message::{Method, Request, Response};
use http_service::mock::make_server;
use http_service::service::{EchoService, OkFuture, RejectingService, RespondError};

fn get_with_body(payload: &[u8]) -> Request {
    Request::with_body(Method::Get, b"/".to_vec(), Body::from_bytes(payload.to_vec()))
}

#[test]
fn ok_future_is_immediately_ready() {
    let mut future = OkFuture::new();
    assert_eq!(future.poll(), Ok(()));
    assert_eq!(future.poll(), Ok(()));
}

#[test]
fn simulated_server_round_trips_a_request() {
    let mut backend = make_server(EchoService).unwrap();
    let response = backend.simulate(get_with_body(b"ping")).unwrap();
    assert_eq!(response.status, 200);
    let mut body = response.body;
    assert_eq!(body.drain_to_buffer().unwrap(), b"ping".to_vec());
}

#[test]
fn simulated_server_propagates_connect_failure() {
    assert!(make_server(RejectingService).is_err());
}

#[test]
fn a_plain_function_is_a_service() {
    // A function mapping requests to responses is a degenerate service: the
    // blanket impl synthesizes a stateless connection for it.
    let handler = |_req: Request| -> Result<Response, RespondError> {
        Ok(Response::new(204, Body::empty()))
    };
    let mut backend = make_server(handler).unwrap();
    let response = backend.simulate(get_with_body(b"ignored")).unwrap();
    assert_eq!(response.status, 204);
}

#[test]
fn gateway_serves_one_request() {
    let reply = handle_one(&EchoService, get_with_body(b"hello gateway")).unwrap();
    assert_eq!(reply.status, 200);
    match reply.payload {
        GatewayBody::Text(v) => assert_eq!(v, b"hello gateway".to_vec()),
        _ => panic!("an echoed UTF-8 payload must come back as text"),
    }
}

#[test]
fn gateway_reports_connect_failure() {
    let r = handle_one(&RejectingService, get_with_body(b"x"));
    assert_eq!(r.err(), Some(GatewayError::Connect));
}

#[test]
fn gateway_reports_respond_failure() {
    let failing_request = Request::with_body(
        Method::Get,
        b"/".to_vec(),
        Body::from_source(ByteSource { chunks: vec![], fails: true }),
    );
    let r = handle_one(&EchoService, failing_request);
    assert_eq!(r.err(), Some(GatewayError::Respond));
}

#[test]
fn gateway_reports_body_failure() {
    let handler = |_req: Request| -> Result<Response, RespondError> {
        let source = ByteSource { chunks: vec![b"lost".to_vec()], fails: true };
        Ok(Response::new(200, Body::from_source(source)))
    };
    let r = handle_one(&handler, get_with_body(b"x"));
    assert_eq!(r.err(), Some(GatewayError::BodyIo));
}

#[test]
fn gateway_classifies_an_empty_reply() {
    let handler = |_req: Request| -> Result<Response, RespondError> {
        Ok(Response::new(200, Body::empty()))
    };
    let reply = handle_one(&handler, get_with_body(b"x")).unwrap();
    assert!(matches!(reply.payload, GatewayBody::Empty));
}
