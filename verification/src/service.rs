//! The service contract: the seam between transport and application.
//!
//! An [`HttpService`] is shared application logic exposing per-connection
//! setup ([`HttpService::connect`]) and per-request handling
//! ([`HttpService::respond`]). One service instance is shared by all
//! connections a dispatcher handles; the connection state returned by
//! `connect` is owned exclusively by the unit handling that one connection.
//!
//! Because `connect` and `respond` are application code, the trait does not
//! fix what they return; instead each implementation describes its own
//! behaviour through the spec relations [`HttpService::connect_post`] and
//! [`HttpService::respond_post`], and everything the dispatcher guarantees is
//! stated over those relations.

use vstd::prelude::*;

use crate::body::Body;
use crate::message::{Request, Response};

verus! {

/// Failure of per-connection setup: the connection is closed without
/// attempting any request.
#[derive(Clone, Copy, Debug, PartialEq, Eq, Structural)]
pub struct ConnectError;

/// Outright failure of a `respond` call, fatal to its connection. An
/// application error that is meant to be recoverable is encoded as an
/// ordinary [`Response`] with an error status instead.
#[derive(Clone, Copy, Debug, PartialEq, Eq, Structural)]
pub struct RespondError;

/// An HTTP service.
///
/// An instance represents a service as a whole. The associated `Connection`
/// type holds any per-connection state the service needs.
pub trait HttpService: Sized {
    /// Per-connection state, created by `connect`, owned exclusively by the
    /// unit handling that one connection.
    type Connection;

    /// Which outcomes `connect` may have.
    spec fn connect_post(&self, r: Result<Self::Connection, ConnectError>) -> bool;

    /// When `respond` may be called on the given connection state and
    /// request.
    spec fn respond_pre(&self, conn: Self::Connection, req: Request) -> bool;

    /// Which outcomes `respond` may have: relates the connection state before
    /// the call, the request, the connection state after the call and the
    /// result.
    spec fn respond_post(
        &self,
        conn: Self::Connection,
        req: Request,
        new_conn: Self::Connection,
        r: Result<Response, RespondError>,
    ) -> bool;

    /// Initiate a new connection.
    ///
    /// Called once per accepted transport connection, before any request is
    /// exchanged. An error means the connection must be closed without
    /// attempting any request.
    fn connect(&self) -> (r: Result<Self::Connection, ConnectError>)
        ensures
            self.connect_post(r),
    ;

    /// Handle a single request, with exclusive mutable access to the
    /// connection's state for the duration of the call.
    ///
    /// An error is fatal to the connection, not to individual requests.
    fn respond(&self, conn: &mut Self::Connection, req: Request) -> (r: Result<
        Response,
        RespondError,
    >)
        requires
            self.respond_pre(*old(conn), req),
        ensures
            self.respond_post(*old(conn), req, *final(conn), r),
    ;
}

/// A function mapping requests to responses is a degenerate service: it
/// synthesizes a trivial, stateless connection on every `connect`, so plain
/// handlers satisfy the full contract without declaring connection state.
impl<F: Fn(Request) -> Result<Response, RespondError>> HttpService for F {
    type Connection = ();

    open spec fn connect_post(&self, r: Result<(), ConnectError>) -> bool {
        r is Ok
    }

    open spec fn respond_pre(&self, conn: (), req: Request) -> bool {
        call_requires(*self, (req,))
    }

    open spec fn respond_post(
        &self,
        conn: (),
        req: Request,
        new_conn: (),
        r: Result<Response, RespondError>,
    ) -> bool {
        call_ensures(*self, (req,), r)
    }

    fn connect(&self) -> (r: Result<(), ConnectError>) {
        let mut ready = OkFuture::new();
        match ready.poll() {
            Ok(unit) => Ok(unit),
            Err(e) => Err(e),
        }
    }

    fn respond(&self, conn: &mut (), req: Request) -> (r: Result<Response, RespondError>) {
        (self)(req)
    }
}

/// A service that answers every request with the same fixed payload, on a
/// stateless connection.
pub struct FixedService {
    /// The payload of every response.
    pub payload: Vec<u8>,
}

impl HttpService for FixedService {
    type Connection = ();

    open spec fn connect_post(&self, r: Result<(), ConnectError>) -> bool {
        r is Ok
    }

    open spec fn respond_pre(&self, conn: (), req: Request) -> bool {
        true
    }

    open spec fn respond_post(
        &self,
        conn: (),
        req: Request,
        new_conn: (),
        r: Result<Response, RespondError>,
    ) -> bool {
        match r {
            Ok(resp) => {
                &&& resp.status == 200
                &&& resp.headers@ == Seq::<(Seq<u8>, Seq<u8>)>::empty()
                &&& resp.body.pending() == seq![self.payload@]
                &&& !resp.body.will_fail()
            },
            Err(_) => false,
        }
    }

    fn connect(&self) -> (r: Result<(), ConnectError>) {
        Ok(())
    }

    fn respond(&self, conn: &mut (), req: Request) -> (r: Result<Response, RespondError>) {
        let payload = crate::message::clone_bytes(&self.payload);
        Ok(Response::new(200, Body::from_bytes(payload)))
    }
}

/// A service whose per-connection setup always fails: every connection is
/// closed without any request being attempted.
pub struct RejectingService;

impl HttpService for RejectingService {
    type Connection = ();

    open spec fn connect_post(&self, r: Result<(), ConnectError>) -> bool {
        r is Err
    }

    open spec fn respond_pre(&self, conn: (), req: Request) -> bool {
        true
    }

    open spec fn respond_post(
        &self,
        conn: (),
        req: Request,
        new_conn: (),
        r: Result<Response, RespondError>,
    ) -> bool {
        r is Err
    }

    fn connect(&self) -> (r: Result<(), ConnectError>) {
        Err(ConnectError)
    }

    fn respond(&self, conn: &mut (), req: Request) -> (r: Result<Response, RespondError>) {
        Err(RespondError)
    }
}

/// A service that answers each request with the request's own payload, on a
/// stateless connection. A failure while draining the request body is an
/// outright `respond` failure.
pub struct EchoService;

impl HttpService for EchoService {
    type Connection = ();

    open spec fn connect_post(&self, r: Result<(), ConnectError>) -> bool {
        r is Ok
    }

    open spec fn respond_pre(&self, conn: (), req: Request) -> bool {
        true
    }

    open spec fn respond_post(
        &self,
        conn: (),
        req: Request,
        new_conn: (),
        r: Result<Response, RespondError>,
    ) -> bool {
        match r {
            Ok(resp) => {
                &&& !req.body.will_fail()
                &&& resp.status == 200
                &&& resp.headers@ == Seq::<(Seq<u8>, Seq<u8>)>::empty()
                &&& resp.body.pending() == seq![req.body.bytes()]
                &&& !resp.body.will_fail()
            },
            Err(_) => req.body.will_fail(),
        }
    }

    fn connect(&self) -> (r: Result<(), ConnectError>) {
        Ok(())
    }

    fn respond(&self, conn: &mut (), req: Request) -> (r: Result<Response, RespondError>) {
        let mut body = req.body;
        match body.drain_to_buffer() {
            Ok(buffer) => Ok(Response::new(200, Body::from_bytes(buffer))),
            Err(_) => Err(RespondError),
        }
    }
}

/// A computation that is already complete and resolves to `Ok(())`: the
/// connection future of a degenerate service, which has no setup to do.
#[derive(Debug)]
pub struct OkFuture(bool);

impl OkFuture {
    /// Whether the computation has not been polled yet.
    pub closed spec fn pending(self) -> bool {
        self.0
    }

    /// A fresh, unpolled computation.
    pub fn new() -> (f: OkFuture)
        ensures
            f.pending(),
    {
        OkFuture(true)
    }

    /// Resolves: always immediately ready with `Ok(())`.
    pub fn poll(&mut self) -> (r: Result<(), ConnectError>)
        ensures
            r == Result::<(), ConnectError>::Ok(()),
            !final(self).pending(),
    {
        self.0 = false;
        Ok(())
    }
}

} // verus!
