//! Bridge to a packet-capture analysis engine spoken to over
//! line-delimited JSON-RPC on a subprocess's standard streams.
//!
//! This crate is the pure core of the bridge: a JSON value model with a
//! verified renderer and parser, the request/response protocol, the
//! typed query operations with their shape translation, binary
//! discovery, and the install health verdict. Process spawning, pipe
//! I/O and the network surface live with the caller, which probes the
//! world and hands this crate plain values.

pub mod api;
pub mod decode;
pub mod health;
pub mod json;
pub mod json_in;
pub mod json_out;
pub mod json_props;
pub mod locator;
pub mod params;
pub mod rpc;
pub mod stats;
pub mod stream;
