//! The jobs that the coordinating server hands to the workers.
use crate::entities::session::SessionId;
use std::collections::HashMap;
use vstd::prelude::*;

verus! {

/// Identifier of the demonstration job.
pub const DUMMY_WORKER_IDENTIFIER: &'static str = "dummy";

/// Identifier of the job that aggregates the bootstrapping key shares of a
/// session.
pub const BS_KEY_SHARES_AGGREGATOR_WORKER_IDENTIFIER: &'static str = "bs_key_shares";

/// Identifier of the job that computes the function of a session.
pub const COMPUTE_FUNCTION_WORKER_IDENTIFIER: &'static str = "compute_function";

/// The payload of a job: the data that the worker processes, with the tracing
/// context of the request that created the job.
#[derive(Debug)]
pub struct WorkerPayload<T> {
    /// The data that the worker processes.
    pub data: T,
    /// Tracing context, as key-value pairs.
    pub tracing: HashMap<String, String>,
}

/// The data of the demonstration job.
#[derive(Debug)]
pub struct DummyWorkerData {
    pub internal_id: String,
}

/// The demonstration job.
#[derive(Debug)]
pub struct DummyWorker {
    pub data: DummyWorkerData,
    pub tracing: HashMap<String, String>,
}

/// The job that aggregates the bootstrapping key shares of a session: its
/// identifier and payload.
pub fn bs_key_shares_job(session_id: SessionId, tracing: HashMap<String, String>) -> (r: (
    &'static str,
    WorkerPayload<SessionId>,
))
    ensures
        r.0 == BS_KEY_SHARES_AGGREGATOR_WORKER_IDENTIFIER,
        r.1.data == session_id,
        r.1.tracing@ == tracing@,
{
    (BS_KEY_SHARES_AGGREGATOR_WORKER_IDENTIFIER, WorkerPayload { data: session_id, tracing })
}

/// The job that computes the function of a session: its identifier and
/// payload.
pub fn compute_function_job(session_id: SessionId, tracing: HashMap<String, String>) -> (r: (
    &'static str,
    WorkerPayload<SessionId>,
))
    ensures
        r.0 == COMPUTE_FUNCTION_WORKER_IDENTIFIER,
        r.1.data == session_id,
        r.1.tracing@ == tracing@,
{
    (COMPUTE_FUNCTION_WORKER_IDENTIFIER, WorkerPayload { data: session_id, tracing })
}

/// The demonstration job carrying `internal_id`: its identifier and payload.
pub fn dummy_job(internal_id: String, tracing: HashMap<String, String>) -> (r: (
    &'static str,
    WorkerPayload<DummyWorkerData>,
))
    ensures
        r.0 == DUMMY_WORKER_IDENTIFIER,
        r.1.data.internal_id@ == internal_id@,
        r.1.tracing@ == tracing@,
{
    (DUMMY_WORKER_IDENTIFIER, WorkerPayload { data: DummyWorkerData { internal_id }, tracing })
}

} // verus!
