//! Verified core of a Discord bot that backs up message attachments to a
//! cloud drive through an rclone remote-control server.

pub mod text;
pub mod digits;
pub mod gateway;
pub mod queue_entry;
pub mod processing_queue;
pub mod helpers;
pub mod status;
pub mod json;
pub mod uploader;
pub mod handlers;
pub mod reactions;
pub mod upload;
pub mod configurator;
pub mod commands;
pub mod mini_attachment;
