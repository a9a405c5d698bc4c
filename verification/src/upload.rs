//! The HTTP client of the rclone remote-control server.

pub mod client;
