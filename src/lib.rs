//! Latency and reliability profiling of a single HTTP(S) endpoint.
//!
//! The library holds the decisions and computations of a profiling session:
//! the request text, the parsing of a raw response, the session's state
//! machine, and the statistics over its outcomes. Opening connections,
//! writing, reading and timing are left to the caller.

pub mod text;
pub mod response;
pub mod stats;
pub mod request;
pub mod transport;
pub mod session;
