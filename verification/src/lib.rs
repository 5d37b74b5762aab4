//! Presence change-detection engine with a periodic reminder scheduler and a
//! tiered caching/persistence layer.
//!
//! The library decides which presence observations are meaningful enough to
//! report, schedules idempotent sequence-numbered reminders while a condition
//! persists, memoizes expensive external lookups across an in-memory tier and
//! an optional durable tier, and persists the last known status so that a
//! restart neither re-announces stale state nor double-fires reminders.

pub mod cache;
pub mod config;
pub mod event;
pub mod jsontext;
pub mod presence;
pub mod state_cache;
pub mod steam;
pub mod strutil;
pub mod tracker;
pub mod wake;
pub mod textnum;
