//! Verified core of the GPJC API service: request and log types, the SQL
//! statements the service sends, the parsing of the join-and-compute
//! binaries' output and the replies the HTTP handlers give.

pub mod db;
pub mod laws;
pub mod outcome;
pub mod paths;
pub mod text;
mod types;

pub use types::{ClientStartRequest, LogEntry, ProofRequest, Response, ServerStartRequest};
