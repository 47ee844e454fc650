//! The backend adapter boundary.
//!
//! A hosting framework that hands over one pre-parsed request at a time (a
//! request/response gateway) drives a service through [`handle_one`]: set up
//! a fresh connection, respond to the one request, and materialize the
//! response body. Payloads cross such a boundary as a [`GatewayBody`] — the
//! empty / text / binary shape foreign gateways distinguish — and
//! [`gateway_body_of_bytes`] classifies a drained body accordingly.

use vstd::prelude::*;

use crate::body::Body;
use crate::message::{Headers, Request, Response};
use crate::service::{ConnectError, HttpService, RespondError};
use crate::utf8::{is_utf8, validate_utf8};

verus! {

/// A payload as a request/response gateway carries it: absent, textual, or
/// binary.
pub enum GatewayBody {
    /// No payload.
    Empty,
    /// A non-empty payload of well-formed UTF-8 text, as its bytes.
    Text(Vec<u8>),
    /// A non-empty payload that is not well-formed UTF-8.
    Binary(Vec<u8>),
}

/// Whether `payload` is the gateway shape of exactly the bytes `bytes`.
pub open spec fn gateway_body_models(payload: GatewayBody, bytes: Seq<u8>) -> bool {
    match payload {
        GatewayBody::Empty => bytes.len() == 0,
        GatewayBody::Text(v) => v@ == bytes && bytes.len() > 0 && is_utf8(bytes),
        GatewayBody::Binary(v) => v@ == bytes && bytes.len() > 0 && !is_utf8(bytes),
    }
}

/// Classifies a drained payload into its gateway shape: empty, well-formed
/// text, or binary. No byte is lost or changed.
pub fn gateway_body_of_bytes(buffer: Vec<u8>) -> (r: GatewayBody)
    ensures
        gateway_body_models(r, buffer@),
{
    if buffer.len() == 0 {
        GatewayBody::Empty
    } else if validate_utf8(buffer.as_slice()) {
        GatewayBody::Text(buffer)
    } else {
        GatewayBody::Binary(buffer)
    }
}

/// Turns a gateway payload into a body for a request handed to the service:
/// the payload's bytes, as one chunk, over a source that cannot fail.
pub fn body_of_gateway(payload: GatewayBody) -> (b: Body)
    ensures
        !b.will_fail(),
        match payload {
            GatewayBody::Empty => b.bytes() == Seq::<u8>::empty(),
            GatewayBody::Text(v) => b.bytes() == v@,
            GatewayBody::Binary(v) => b.bytes() == v@,
        },
{
    match payload {
        GatewayBody::Empty => Body::empty(),
        GatewayBody::Text(v) => Body::from_bytes(v),
        GatewayBody::Binary(v) => Body::from_bytes(v),
    }
}

/// A response as it crosses the gateway boundary: status, headers, and the
/// fully materialized payload.
pub struct GatewayResponse {
    /// The response status.
    pub status: u16,
    /// The response headers.
    pub headers: Headers,
    /// The drained response payload, classified.
    pub payload: GatewayBody,
}

/// Why handling one gateway request failed; the failing connection is
/// discarded.
#[derive(Clone, Copy, Debug, PartialEq, Eq, Structural)]
pub enum GatewayError {
    /// Per-connection setup failed.
    Connect,
    /// The service's respond call failed outright.
    Respond,
    /// Draining the response body failed.
    BodyIo,
}

/// Serves one pre-parsed request through the service, as a gateway backend
/// does: a fresh connection, one respond call, and the response body drained
/// into the reply.
pub fn handle_one<S: HttpService>(service: &S, req: Request) -> (r: Result<
    GatewayResponse,
    GatewayError,
>)
    requires
        forall|c: S::Connection| #[trigger] service.respond_pre(c, req),
    ensures
        match r {
            Ok(gr) => exists|c0: S::Connection, c1: S::Connection, resp: Response|
                {
                    &&& service.connect_post(Ok(c0))
                    &&& #[trigger] service.respond_post(c0, req, c1, Ok(resp))
                    &&& !resp.body.will_fail()
                    &&& gr.status == resp.status
                    &&& gr.headers@ == resp.headers@
                    &&& gateway_body_models(gr.payload, resp.body.bytes())
                },
            Err(GatewayError::Connect) => exists|e: ConnectError| #[trigger] service.connect_post(
                Err(e),
            ),
            Err(GatewayError::Respond) => exists|
                c0: S::Connection,
                c1: S::Connection,
                e: RespondError,
            |
                service.connect_post(Ok(c0)) && #[trigger] service.respond_post(
                    c0,
                    req,
                    c1,
                    Err(e),
                ),
            Err(GatewayError::BodyIo) => exists|
                c0: S::Connection,
                c1: S::Connection,
                resp: Response,
            |
                {
                    &&& service.connect_post(Ok(c0))
                    &&& #[trigger] service.respond_post(c0, req, c1, Ok(resp))
                    &&& resp.body.will_fail()
                },
        },
{
    let mut conn = match service.connect() {
        Ok(conn) => conn,
        Err(e) => {
            proof {
                assert(service.connect_post(Err(e)));
            }
            return Err(GatewayError::Connect);
        },
    };
    let ghost c0 = conn;
    let resp = match service.respond(&mut conn, req) {
        Ok(resp) => resp,
        Err(e) => {
            proof {
                assert(service.connect_post(Ok(c0)));
                assert(service.respond_post(c0, req, conn, Err(e)));
            }
            return Err(GatewayError::Respond);
        },
    };
    let ghost c1 = conn;
    let ghost resp0 = resp;
    let Response { status, headers, body } = resp;
    let mut body = body;
    match body.drain_to_buffer() {
        Ok(buffer) => {
            let payload = gateway_body_of_bytes(buffer);
            proof {
                assert(service.respond_post(c0, req, c1, Ok(resp0)));
            }
            Ok(GatewayResponse { status, headers, payload })
        },
        Err(_) => {
            proof {
                assert(service.respond_post(c0, req, c1, Ok(resp0)));
            }
            Err(GatewayError::BodyIo)
        },
    }
}

} // verus!
