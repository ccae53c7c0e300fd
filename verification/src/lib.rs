//! Verified core of an exchange-announcement monitor: proxy rotation,
//! bounded retry with exponential backoff, structured/markup response
//! extraction, listing classification, and per-source scheduling decisions.

pub mod announcement;
pub mod classifier;
pub mod config;
pub mod digits;
pub mod error;
pub mod extractor;
pub mod headers;
pub mod kucoin;
pub mod markup;
pub mod proxy;
pub mod retry;
pub mod supervisor;
pub mod text;
pub mod time;
