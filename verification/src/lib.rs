//! A transport-agnostic abstraction for serving request/response style
//! connections, together with a reference connection-accept dispatcher.
//!
//! The crate is organised around three pieces:
//!
//! - [`body::Body`]: a single-use, lazily-produced sequence of byte chunks
//!   carrying a request or response payload.
//! - [`service::HttpService`]: the seam between a transport and application
//!   logic, with per-connection setup (`connect`) and per-request handling
//!   (`respond`).
//! - [`dispatch`]: the dispatcher that turns a sequence of incoming
//!   connections into isolated, independently failing units of work while
//!   preserving per-connection request/response ordering. Its per-connection
//!   lifecycle is the state machine of [`machine`].
//!
//! Transports themselves (sockets, event loops) live outside this crate and
//! drive it by handing in plain values.

pub mod body;
pub mod message;
pub mod mock;
pub mod dispatch;
pub mod gateway;
pub mod machine;
pub mod service;
pub mod utf8;
