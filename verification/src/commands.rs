//! Chat commands.

pub mod configurator;
