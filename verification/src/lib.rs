//! A reverse HTTP proxy core: rule matching, response caching with request
//! coalescing, per-upstream connection-pool accounting, authentication
//! sub-requests, and proxy-header rewriting, with the behaviour of each part
//! stated in its contract.

pub mod authentication;
pub mod cache;
pub mod config;
pub mod conn_pool;
pub mod error;
pub mod forward;
pub mod handler;
pub mod match_type;
pub mod message;
pub mod pattern;
pub mod rule;
pub mod strutil;

pub use config::Config;
pub use error::Error;
pub use rule::{CacheSettings, Rule};
