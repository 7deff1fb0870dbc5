//! Orchestration core of a chain-transaction indexer: the checkpointed
//! signature-discovery cursor logic, the shared work queue with claim-once
//! dequeue semantics, the per-worker lifecycle state machines, and the
//! shutdown barrier the dispatcher waits on.

pub mod checkpoint;
pub mod queue;
pub mod dispatcher;
pub mod signatures_loader;
pub mod transactions_loader;
