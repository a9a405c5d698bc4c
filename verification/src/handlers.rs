//! Decisions taken on gateway events.

pub mod message;
pub mod cache_ready;
