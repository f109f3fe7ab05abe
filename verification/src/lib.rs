//! Lifecycle engine for ephemeral, owner-scoped storage workspaces.
//!
//! A workspace is a named, owned, time-bounded allocation on a filesystem
//! pool.  Its metadata (the `(filesystem, user, name)` key and an expiration
//! time) lives in a durable store; its data lives in a volume managed by an
//! external volume manager.  The engine composes the two through the `Store`
//! and `VolumeBackend` ports and enforces per-filesystem policy (duration
//! caps, enable/disable) and ownership authorization.

pub mod backend;
pub mod columns;
pub mod config;
pub mod engine;
pub mod errors;
pub mod laws;
pub mod mapmodel;
pub mod naming;
pub mod numbers;
pub mod policy;
pub mod schedule;
pub mod schema;
pub mod store;
