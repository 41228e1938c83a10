//! A verified worker-process RPC layer: process supervision with one
//! handle slot per worker kind, three framed stdio transports (plain
//! JSON lines, marker-prefixed lines, and Content-Length frames),
//! request/reply correlation with timeouts, bounded crash-restart
//! bookkeeping, and orphan cleanup across application restarts.
//!
//! The library holds every decision; the processes, pipes and threads
//! that carry them out live with the embedding application.

use vstd::prelude::*;

pub mod completion;
pub mod correlator;
pub mod events;
pub mod framing;
pub mod httpserver;
pub mod indexing;
pub mod inference;
pub mod jsontext;
pub mod lsp;
pub mod numtext;
pub mod orphan;
pub mod prefixed;
pub mod records;
pub mod restart;
pub mod supervisor;
pub mod textscan;
pub mod token_table;

verus! {

/// The error taxonomy of the worker-process layer.
///
/// `SpawnFailed` reports an executable that could not be launched,
/// `AlreadyRunning` a second start without an intervening stop,
/// `Timeout` a request that exceeded its deadline, `Disconnected` a
/// worker that died mid-request, `ProtocolError` a malformed frame,
/// and `NotRunning` an operation that needs a live worker.
#[derive(Clone, Debug, PartialEq, Eq)]
pub enum WorkerError {
    SpawnFailed(String),
    AlreadyRunning,
    Timeout,
    Disconnected,
    ProtocolError(String),
    NotRunning,
}

impl WorkerError {
    /// A short machine-readable tag for the error, usable as an event topic.
    pub fn tag(&self) -> (r: &'static str)
        ensures
            r@ == match self {
                WorkerError::SpawnFailed(_) => "spawn_failed"@,
                WorkerError::AlreadyRunning => "already_running"@,
                WorkerError::Timeout => "timeout"@,
                WorkerError::Disconnected => "disconnected"@,
                WorkerError::ProtocolError(_) => "protocol_error"@,
                WorkerError::NotRunning => "not_running"@,
            },
    {
        match self {
            WorkerError::SpawnFailed(_) => "spawn_failed",
            WorkerError::AlreadyRunning => "already_running",
            WorkerError::Timeout => "timeout",
            WorkerError::Disconnected => "disconnected",
            WorkerError::ProtocolError(_) => "protocol_error",
            WorkerError::NotRunning => "not_running",
        }
    }
}

} // verus!
