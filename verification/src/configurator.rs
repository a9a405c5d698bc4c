//! Per-guild configuration of the backup target.

pub mod config;
pub mod gdrive;
