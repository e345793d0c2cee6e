//! Working off batches of due timers: the choice of a strategy, the conversion
//! of timers into events, and their dispatch.

pub mod async_dispatcher;
pub mod laws;
pub mod memory;
pub mod rayon_executor;
pub mod simd_processor;
pub mod single_thread_bypass;
pub mod strategy;
pub mod system;
pub mod types;
