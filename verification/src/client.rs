//! The client's side of a session: what it remembers between frames.

pub mod crypto;
pub mod state;
pub mod dm_handler;
pub mod ui;
pub mod handshake;
