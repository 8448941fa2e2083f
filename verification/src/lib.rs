//! Normalized market-data book maintenance pipeline.
//!
//! The core of the crate is the per-exchange order-book pipeline: frames are
//! decoded into tagged book updates, demultiplexed by subscription key to
//! per-instrument updaters, validated against the exchange's sequence rules,
//! and applied to a local depth-book replica, from which immutable snapshots
//! and top-of-book views are derived.

pub mod book;
pub mod channel;
pub mod decimal;
pub mod decode;
pub mod error;
pub mod event;
pub mod json;
pub mod message;
pub mod okx;
pub mod risk;
pub mod side;
pub mod strutil;
pub mod transformer;
pub mod updater;
