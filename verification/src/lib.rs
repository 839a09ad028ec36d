//! DarkRelay: a relay for group chat whose message bodies it never reads.
//!
//! Clients present a shared special key, agree on a session secret with the
//! relay, register or log in, and join named channels; what they send into
//! a channel is stored, numbered and fanned out to the channel's members.
//! Roles, bans and channel kinds decide who may do what.
//!
//! The crate is the relay's logic, proved with Verus. Every store has a
//! mathematical model (its view), every operation says in its contract how
//! the model changes, and [`server::model`] puts the operations together
//! into one state machine: the state after a client message is a function
//! of the state before, the message, the clock reading and the few results
//! that come from outside (a password hash, a key pair). The executable
//! dispatcher in [`server::session`] is proved to take exactly the steps of
//! that machine, and [`server::laws`] proves what holds of every state the
//! machine can reach.
//!
//! Sockets, TLS, serialization and the terminal are left to the program
//! around the library. The library hands out the messages it queued
//! ([`server::state::AppState::take_outbox`]) and takes in what arrived.

pub mod client;
pub mod keyed;
pub mod keys;
pub mod protocol;
pub mod server;
pub mod text;
pub mod time;
