//! The relay itself: the shared stores and the per-connection dispatcher.

pub mod channel;
pub mod registry;
pub mod auth;
pub mod admin;
pub mod ban_manager;
pub mod crypto;
pub mod model;
pub mod state;
pub mod handler;
pub mod moderation;
pub mod session;
pub mod laws;
pub mod dm_manager;
pub mod file_transfer;
