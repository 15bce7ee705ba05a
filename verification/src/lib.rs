//! Verified core of a terminal funding-rate monitor.
//!
//! The library owns the snapshot collection-and-cache layer: for a
//! configured set of (venue, symbol) pairs it decides whether to serve a
//! cached market snapshot, integrate a freshly fetched one, or fall back to
//! a stale-but-available value, and it aggregates per-pair failures into
//! warnings without aborting a collection round.  Network transport, the
//! terminal UI and command-line parsing are unverified collaborators that
//! hand the library plain values: timestamps are milliseconds since the
//! Unix epoch, prices and funding rates are fixed-point integers with
//! eight decimal places.

pub mod ai;
pub mod alerts;
pub mod app;
pub mod cache;
pub mod config;
pub mod data;
pub mod fetch;
pub mod laws;
pub mod metrics;
pub mod snapshot;
pub mod text;
