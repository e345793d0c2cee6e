//! The socket side: which connection a frame belongs to, and what happens to
//! connections over their lifetime.

pub mod actor;
pub mod address_table;
pub mod command;
pub mod draining;
pub mod event_loop;
pub mod handshake;
pub mod initial_data;
pub mod laws;
pub mod routing;
pub mod transport;
