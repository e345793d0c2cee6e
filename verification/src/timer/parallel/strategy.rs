//! The choice of a strategy for a batch.

use vstd::prelude::*;

verus! {

/// How a batch is worked off.
#[derive(Clone, Copy, Debug, PartialEq, Eq, Structural)]
pub enum OptimalParallelStrategy {
    /// In one piece, on this thread.
    SIMDOnly,
    /// In chunks, on several threads.
    SIMDWithRayon,
    /// In chunks, on several threads, with recycling of events.
    FullHybrid,
}

/// Batches from this size on are worth several threads.
pub const PARALLEL_BATCH_SIZE: usize = 1024;

/// The strategy for a batch: large batches are spread where there is more than
/// one processor.
pub open spec fn strategy_for(cpu_cores: usize, batch_size: usize) -> OptimalParallelStrategy {
    if batch_size >= PARALLEL_BATCH_SIZE && cpu_cores >= 2 {
        OptimalParallelStrategy::FullHybrid
    } else {
        OptimalParallelStrategy::SIMDOnly
    }
}

/// Chooses strategies for a given number of processors.
pub struct StrategySelector {
    cpu_cores: usize,
}

impl StrategySelector {
    pub closed spec fn cores(&self) -> usize {
        self.cpu_cores
    }

    pub fn new(cpu_cores: usize) -> (selector: Self)
        ensures
            selector.cores() == cpu_cores,
    {
        StrategySelector { cpu_cores }
    }

    /// The strategy for a batch of `batch_size` timers.
    pub fn choose_optimal_strategy(&self, batch_size: usize) -> (strategy: OptimalParallelStrategy)
        ensures
            strategy == strategy_for(self.cores(), batch_size),
    {
        match batch_size {
            0..=256 => OptimalParallelStrategy::SIMDOnly,
            257..=1023 => OptimalParallelStrategy::SIMDOnly,
            _ => if self.cpu_cores >= 2 {
                OptimalParallelStrategy::FullHybrid
            } else {
                OptimalParallelStrategy::SIMDOnly
            },
        }
    }
}

} // verus!
