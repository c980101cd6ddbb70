pub mod clock;
pub mod config;
pub mod concurrent_map;
pub mod error;
pub mod metrics;
pub mod types;
