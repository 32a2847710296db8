//! Per-client admission control over a sliding time window, with a few small
//! infrastructure records (task queue, gateways, lifecycle policy, snapshots).
//!
//! The limiter's decisions are defined by the pure functions of [`window`];
//! [`table`] holds the per-client histories and applies those functions for a
//! caller-supplied time; [`laws`] proves what follows for every table and
//! every time; [`limiter`] shares one table behind a lock and reads the time
//! from the monotonic clock.
pub mod clock;
pub mod internet_gateway;
pub mod laws;
pub mod lifecycle;
pub mod limiter;
pub mod lock;
pub mod nat_gateway;
pub mod scheduler;
pub mod snapshot;
pub mod table;
pub mod window;
