//! The decision logic of a reliable UDP endpoint: frame routing, connection
//! lifecycle, timers, and the event pools and dispatchers that feed them.
//!
//! Every function here works on plain values. Time is a `u64` count of
//! nanoseconds on a clock that the caller reads, network addresses are
//! [`packet::PeerAddr`] values, and whatever an asynchronous task would await
//! is either handed in as an argument or handed back as an action.

mod collections;
pub mod error;
mod outside;
pub mod packet;
pub mod socket;
pub mod timer;
