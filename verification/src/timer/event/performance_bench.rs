//! What a run of benchmarks covers.

use vstd::prelude::*;

verus! {

/// The sizes that a run of benchmarks goes through.
#[derive(Debug)]
pub struct BenchConfig {
    pub batch_sizes: Vec<usize>,
    pub dispatcher_counts: Vec<usize>,
    pub slot_counts: Vec<usize>,
    pub iterations: usize,
}

impl Default for BenchConfig {
    fn default() -> (config: Self)
        ensures
            config.batch_sizes@ == seq![32usize, 128, 512, 2048, 8192],
            config.dispatcher_counts@ == seq![1usize, 4, 8, 16],
            config.slot_counts@ == seq![64usize, 256, 1024, 4096],
            config.iterations == 100,
    {
        BenchConfig {
            batch_sizes: vec![32, 128, 512, 2048, 8192],
            dispatcher_counts: vec![1, 4, 8, 16],
            slot_counts: vec![64, 256, 1024, 4096],
            iterations: 100,
        }
    }
}

} // verus!
