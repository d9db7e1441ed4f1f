//! A verified core for a desktop-sprite ("shimeji") overlay engine: the
//! manager that load-balances sprites over a fixed pool of worker buckets,
//! the per-bucket actor protocol, and the frame-pacing logic that advances
//! each sprite's animation independently of the others sharing its thread.

pub mod bucket;
pub mod config;
pub mod data;
pub mod loader;
pub mod manager;
pub mod numeric;
pub mod rgba;
pub mod shimeji;
pub mod sorting;
pub mod worker;
