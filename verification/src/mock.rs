//! A harness for sending simulated requests to an HTTP service.
//!
//! The backend stands in for a whole transport: it performs the
//! per-connection setup once, holds the resulting connection state, and
//! plays single requests against the service.

use vstd::prelude::*;

use crate::message::{Request, Response};
use crate::service::{ConnectError, HttpService, RespondError};

verus! {

/// A simulated server: one service together with one established connection.
pub struct TestBackend<T: HttpService> {
    /// The service under test.
    pub service: T,
    /// The connection state produced by the service's setup.
    pub connection: T::Connection,
}

impl<T: HttpService> TestBackend<T> {
    /// Establishes the one simulated connection against the service.
    fn wrap(service: T) -> (r: Result<TestBackend<T>, ConnectError>)
        ensures
            match r {
                Ok(backend) => backend.service == service && service.connect_post(
                    Ok(backend.connection),
                ),
                Err(e) => service.connect_post(Err(e)),
            },
    {
        match service.connect() {
            Ok(connection) => Ok(TestBackend { service, connection }),
            Err(e) => Err(e),
        }
    }

    /// Sends a request to the simulated server, mutating the held connection
    /// state as the service's `respond` does.
    pub fn simulate(&mut self, req: Request) -> (r: Result<Response, RespondError>)
        requires
            old(self).service.respond_pre(old(self).connection, req),
        ensures
            final(self).service == old(self).service,
            old(self).service.respond_post(
                old(self).connection,
                req,
                final(self).connection,
                r,
            ),
    {
        self.service.respond(&mut self.connection, req)
    }
}

/// Constructs a simulated HTTP server from the given service, performing its
/// per-connection setup once.
pub fn make_server<T: HttpService>(service: T) -> (r: Result<TestBackend<T>, ConnectError>)
    ensures
        match r {
            Ok(backend) => backend.service == service && service.connect_post(
                Ok(backend.connection),
            ),
            Err(e) => service.connect_post(Err(e)),
        },
{
    TestBackend::wrap(service)
}

} // verus!
