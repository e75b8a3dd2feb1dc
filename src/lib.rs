//! Peer reconciliation and health reporting for a probe that monitors a fleet of
//! network peers whose membership is owned by a remote backend.
//!
//! The library holds the decisions: how a fetched peer list is merged into the
//! local peer table, what the health registry records, how reports are shaped,
//! and when a failed report is retried. Network and storage I/O stay with the
//! caller, which hands plain values in and carries out the actions that come back.

pub mod address;
pub mod wire;
pub mod request;
pub mod store;
pub mod health;
pub mod metadata;
pub mod reconcile;
pub mod report;
pub mod backend;
pub mod retry;
pub mod fetch;
