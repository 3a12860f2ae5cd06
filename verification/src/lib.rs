//! A small request/response RPC core around a greeting-and-addition service.
//!
//! - [`service`]: the service and its reference implementation.
//! - [`call`]: the methods as data, with typed arguments and return values.
//! - [`json`]: the JSON encoding of messages, arguments and return values.
//!   On the wire, every message is one line of JSON.
//! - [`codec`] and [`binary`]: the binary encoding of messages, arguments
//!   and return values, as a second format.
//! - [`dispatch`]: from a request to its response.
//! - [`message`]: requests and responses.
//! - [`wire`]: lines, big-endian integers and length-prefixed byte strings.
//! - [`transport`]: messages in and out of one connection, frame by frame.
//! - [`connection`]: the requests in flight on one connection, and its phase.
//! - [`server`]: admission of connections, and shutdown.
//! - [`error`]: the failures that all of these report.
//!
//! Nothing here performs I/O. A program moves bytes between a socket and a
//! [`connection::Connection`], reports what happens at the listening socket
//! to a [`server::Server`], and does what the two of them say.

pub mod error;
pub mod service;
pub mod wire;
pub mod message;
pub mod codec;
pub mod call;
pub mod binary;
pub mod json;
pub mod dispatch;
pub mod transport;
pub mod connection;
pub mod server;
