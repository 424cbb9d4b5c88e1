//! A shared fee-collection registry for a family of liquidity pools.
//!
//! Pools periodically hand their collected protocol fees to one registry, which
//! accumulates them per token and tells each pool the current protocol fee share
//! and the time at which it should come back. The owner can change the
//! configuration and withdraw the accumulated fees.

pub mod address;
pub mod config;
pub mod schedule;
pub mod ledger;
pub mod conservation;
pub mod registry;
