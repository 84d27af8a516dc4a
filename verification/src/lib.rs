#![verifier::loop_isolation(false)]
//! Durable concurrency-control layer for a subscription/newsletter service.
//!
//! Three subsystems share one design: use transactional row semantics of a
//! relational store as the concurrency primitive, never in-process locks.
//!
//! * An idempotency cache deduplicates write-triggering requests keyed by
//!   `(user, idempotency key)` and replays the captured response for retries.
//! * A transactional outbox turns "publish to N subscribers" into durable
//!   per-recipient delivery tasks, drained by a claim-or-skip worker.
//! * A TTL-backed session store implements the load/save/update/delete
//!   contract of a cookie-session backend, with a background reaper.
//!
//! The row store itself is modelled here as verified state; the decisions and
//! transitions on that state are what this crate proves. Process edges (the
//! HTTP server, the SQL connection, the SMTP-side client) stay outside.

pub mod authentication;
mod clock;
pub mod configuration;
pub mod domain;
pub mod idempotency;
mod ids;
pub mod newsletters;
pub mod routes;
pub mod sessions;
pub mod store;
pub mod subscriptions;
pub mod tem;
pub mod worker;
