//! An in-memory key-value cache with time-based expiry and
//! least-recently-used eviction.

pub mod api;
pub mod cache;
pub mod config;
pub mod error;
pub mod models;

pub use config::Config;
