//! What client and server share: the message taxonomy, roles and channel
//! kinds, plaintext padding and the frame format.

pub mod channel;
pub mod crypto;
pub mod frame;
pub mod messages;
pub mod permissions;
