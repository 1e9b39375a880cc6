use vstd::prelude::*;

verus! {

/// Outcome of one run of a join-and-compute binary: its exit code and what
/// it printed.
#[derive(Debug, Clone)]
pub struct Response {
    pub exit_code: i32,
    pub data: String,
}

/// Body of a request that starts the client side of a computation.
#[derive(Debug, Clone)]
pub struct ClientStartRequest {
    pub tx_id: String,
    pub receiver: String,
    pub to: String,
}

/// Body of a request that starts the server side of a computation.
#[derive(Debug, Clone)]
pub struct ServerStartRequest {
    pub tx_id: String,
    pub policy_id: String,
}

/// Body of a request for the stored log of a transaction.
#[derive(Debug, Clone)]
pub struct ProofRequest {
    pub tx_id: String,
}

/// One row of the `gpjc_logs` table, every column as text.
#[derive(Debug, Clone)]
pub struct LogEntry {
    pub transaction_id: String,
    pub result: String,
    pub computation_start: String,
    pub computation_end: String,
    pub is_initiator: String,
}

} // verus!
