//! Resilient sync engine for an issue-tracker desktop client: status
//! classification, wiki-markup-to-markdown conversion, bounded retry with
//! exponential backoff, an online-first-with-local-fallback orchestrator,
//! and the local cache model they read and write.

pub mod client;
pub mod db;
pub mod errors;
pub mod markdown;
pub mod models;
pub mod retry;
pub mod status;
pub mod strutil;
pub mod sync;

pub use errors::AppError;
