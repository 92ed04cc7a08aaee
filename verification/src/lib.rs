//! Verified core of a network-automation control plane.
//!
//! The library models jobs, devices and credentials, resolves target
//! selectors against an inventory, evaluates compliance rules, plans and
//! aggregates per-device job execution under a concurrency bound, and
//! drives the durable work queue with its approval gate.  Everything that
//! talks to the outside world (files, SSH, HTTP, the OS keychain) stays in
//! the surrounding binary; the library hands it plain values and takes
//! plain values back.

pub mod approvals;
pub mod audit;
pub mod bench;
pub mod compliance;
pub mod drivers;
pub mod engine;
pub mod gitops;
pub mod integrations;
pub mod inventory;
pub mod model;
pub mod observability;
pub mod plugin;
pub mod protocol;
pub mod queue;
pub mod rest;
pub mod security;
pub mod telemetry;
pub mod text;
pub mod transactions;
pub mod worker;
