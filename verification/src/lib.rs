//! Transport core for a request/response protocol carried over local
//! byte-stream connections.
//!
//! The crate verifies the logic of the transport: newline-delimited framing
//! of opaque payloads, the client's bounded request queue and its service
//! step, and the server's pending-response table with its monotonically
//! increasing request ids. The sockets, threads and async plumbing that
//! drive this logic live outside the library and hand it plain bytes.

pub mod client;
pub mod error;
pub mod frame;
pub mod json;
pub mod message;
pub mod queue;
pub mod server;
