//! A record-and-replay core for an HTTP proxy.
//!
//! The proxy answers a request from a tape when one exists for the request's
//! path and method; otherwise it forwards the request upstream and writes the
//! answer to a tape. This crate holds the decisions and the byte formats and
//! performs no I/O itself: a driver carries out the actions that the
//! dispatcher asks for and reports back what happened.

pub mod codec;
pub mod dispatch;
pub mod framing;
pub mod key;
pub mod laws;
pub mod message;
pub mod roundtrip;
pub mod scan;
pub mod status;
