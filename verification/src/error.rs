//! Error types.

use vstd::prelude::*;

verus! {

/// Top-level framework error.
#[derive(Debug)]
pub enum Error {
    /// I/O or transport failure.
    Io(String),
    /// JSON parse/serialize.
    Json(String),
    /// Decimal parse.
    Decimal(String),
    /// WebSocket failure.
    Ws(String),
    /// HTTP client failure.
    Http(String),
    /// Engine channel closed.
    EngineShutdown,
    /// Risk rejected order.
    RiskRejected(String),
    /// Execution rejected.
    ExecutionRejected(String),
    /// Invalid configuration or state.
    Invalid(String),
}

} // verus!
