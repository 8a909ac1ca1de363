//! Core of a vehicle-marketplace backend: a timed English-auction bidding
//! engine with an append-only bid history, a time-driven auction lifecycle,
//! and conflict-guarded commits, together with the plain data carried by the
//! surrounding account, inquiry and configuration services.
//!
//! Monetary amounts are fixed-scale decimals held as integer minor units;
//! timestamps are integer ticks supplied by the caller's clock; identifiers
//! are opaque integers.

pub mod accounts;
pub mod config;
pub mod domain;
pub mod engine;
pub mod house;
pub mod inquiries;
pub mod jwt;
pub mod lifecycle;
pub mod routing;
