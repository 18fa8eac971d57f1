//! Debounced monitoring of a two-state circuit and fan-out of its confirmed
//! transitions to registered HTTP endpoints.
//!
//! The modules hold the decisions; a host program performs the sampling,
//! the waiting and the network traffic that the decisions ask for.

pub mod status;
pub mod debounce;
pub mod dispatch;
pub mod registry;
pub mod payload;
pub mod config;
pub mod monitor;
