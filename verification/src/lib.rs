//! Verified core of a small personal-finance platform built around
//! recurring money transfers.
//!
//! The centrepiece is the recurring remittance scheduler: owners create
//! schedules with a cadence, an external poller advances them when due, and
//! owners may pause, resume, modify, or cancel them. Companion modules cover
//! bill payments, per-caller rate limiting, and remittance analytics.
//!
//! Every component is a state machine over plain values. The embedding host
//! supplies the external collaborators — durable storage, the clock,
//! identity verification, and event delivery — and passes their readings in
//! as arguments (the current time, the authenticated caller); the modules
//! here decide and record, and their contracts pin down every transition.

pub mod analytics;
pub mod bill_payments;
pub mod rate_limiter;
pub mod remittance;
pub mod schedule;
pub mod store;
