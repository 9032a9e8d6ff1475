//! Resilient fetch-and-parse core for a paginated catalog search: a TTL/LRU
//! response cache, an exponential-backoff retry policy, a minimum-interval
//! rate limiter, the retry loop as a state machine, and the search-result
//! parser with its bulk and streaming modes.

pub mod cache;
pub mod client;
pub mod error;
mod html;
pub mod item;
pub mod retry;
pub mod search;
pub mod selectors;
mod text;

pub use cache::{GenericCache, ResponseCache};
pub use client::DlsiteClientBuilder;
pub use error::DlsiteError;
pub use retry::RetryConfig;
