//! The event loop of a socket: frame routing with a cache for early frames, and
//! the coordination of new connections.

pub mod laws;
pub mod routing;
pub mod session_coordinator;
