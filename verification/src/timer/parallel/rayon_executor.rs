//! Conversion of due timers on several threads.

use vstd::prelude::*;

use crate::outside::map_chunks;
use crate::timer::event::traits::EventDataTrait;
use crate::timer::event::TimerEvent;
use crate::timer::parallel::simd_processor::SIMDTimerProcessor;
use crate::timer::parallel::types;
use crate::timer::parallel::types::ProcessedTimerData;
use crate::timer::task::commands::TimerError;
use crate::timer::wheel::TimerEntry;

verus! {

/// No chunk is made smaller than this on purpose.
pub const MIN_CHUNK_SIZE: usize = 512;

/// The timers per chunk where there are `cpu_cores` processors. The product has
/// machine width.
pub open spec fn chunk_size_for(cpu_cores: usize) -> usize {
    if cpu_cores.wrapping_mul(64) > MIN_CHUNK_SIZE {
        cpu_cores.wrapping_mul(64)
    } else {
        MIN_CHUNK_SIZE
    }
}

/// Converts due timers chunk by chunk, the chunks on several threads.
#[derive(Clone, Copy, Debug)]
pub struct RayonBatchExecutor {
    chunk_size: usize,
    thread_pool_size: usize,
}

impl RayonBatchExecutor {
    pub closed spec fn spec_chunk_size(&self) -> usize {
        self.chunk_size
    }

    pub closed spec fn spec_thread_pool_size(&self) -> usize {
        self.thread_pool_size
    }

    /// There is room in a chunk.
    pub open spec fn wf(&self) -> bool {
        self.spec_chunk_size() > 0
    }

    pub fn new(cpu_cores: usize) -> (executor: Self)
        ensures
            executor.wf(),
            executor.spec_chunk_size() == chunk_size_for(cpu_cores),
            executor.spec_thread_pool_size() == cpu_cores,
    {
        let scaled: usize = cpu_cores.wrapping_mul(64);
        RayonBatchExecutor {
            chunk_size: if scaled > MIN_CHUNK_SIZE {
                scaled
            } else {
                MIN_CHUNK_SIZE
            },
            thread_pool_size: cpu_cores,
        }
    }

    pub fn chunk_size(&self) -> (size: usize)
        ensures
            size == self.spec_chunk_size(),
    {
        self.chunk_size
    }

    pub fn thread_pool_size(&self) -> (size: usize)
        ensures
            size == self.spec_thread_pool_size(),
    {
        self.thread_pool_size
    }

    /// What stands for each of the timers, in their order. Each chunk is converted
    /// by a processor of its own, like `simd_processor`.
    pub fn parallel_process_with_simd_sync<E: EventDataTrait, C: Sync>(
        &self,
        timer_entries: Vec<TimerEntry<TimerEvent<E, C>>>,
        simd_processor: &mut SIMDTimerProcessor<E>,
    ) -> (result: Result<Vec<ProcessedTimerData<E>>, TimerError>)
        requires
            self.wf(),
        ensures
            result is Ok,
            types::processed_in_chunks(
                result->Ok_0@,
                timer_entries@,
                self.spec_chunk_size() as int,
            ),
            *final(simd_processor) == *old(simd_processor),
    {
        let shared: &SIMDTimerProcessor<E> = &*simd_processor;
        let process = |part: &[TimerEntry<TimerEvent<E, C>>]| -> (data: Vec<ProcessedTimerData<E>>)
            ensures
                types::processed_from(data@, part@),
            {
                let mut local: SIMDTimerProcessor<E> = shared.clone();
                match local.process_batch(part) {
                    Ok(data) => data,
                    Err(_) => Vec::new(),
                }
            };
        let results = map_chunks(timer_entries.as_slice(), self.chunk_size, process);
        let ghost parts = results@;
        let ghost entries = timer_entries@;
        let ghost size = self.chunk_size as int;
        let ghost count = parts.len() as int;
        let mut final_results: Vec<ProcessedTimerData<E>> = Vec::with_capacity(
            timer_entries.len(),
        );
        let ghost mut upto: int = 0;
        proof {
            lemma_chunk_count(entries.len() as int, size);
        }
        for batch in iter: results
            invariant
                iter.seq() == parts,
                count == parts.len(),
                size > 0,
                count == crate::outside::chunk_count(entries.len() as int, size),
                (count - 1) * size < entries.len() || count == 0,
                entries.len() <= count * size,
                forall|k: int|
                    0 <= k < count ==> types::processed_from(
                        (#[trigger] parts[k])@,
                        crate::outside::chunk(entries, size, k),
                    ),
                upto == (if iter.index() * size <= entries.len() {
                    iter.index() * size
                } else {
                    entries.len() as int
                }),
                types::processed_in_chunks(final_results@, entries.take(upto), size),
        {
            let ghost k = iter.index();
            let ghost part = crate::outside::chunk(entries, size, k);
            let ghost before = final_results@;
            let ghost added = batch@;
            let mut batch = batch;
            final_results.append(&mut batch);
            proof {
                assert(added == parts[k]@);
                assert(k * size <= (count - 1) * size) by (nonlinear_arith)
                    requires
                        k <= count - 1,
                        size > 0,
                ;
                assert((k + 1) * size == k * size + size) by (nonlinear_arith);
                let next = if (k + 1) * size <= entries.len() {
                    (k + 1) * size
                } else {
                    entries.len() as int
                };
                assert(upto == k * size);
                assert(part == entries.subrange(upto, next));
                assert forall|i: int| 0 <= i < final_results@.len() implies types::stands_for(
                    #[trigger] final_results@[i],
                    entries.take(next)[i],
                    i % size,
                ) by {
                    if i < before.len() {
                        assert(final_results@[i] == before[i]);
                        assert(entries.take(upto)[i] == entries.take(next)[i]);
                    } else {
                        let j = i - before.len();
                        assert(final_results@[i] == added[j]);
                        assert(part[j] == entries[i]);
                        vstd::arithmetic::div_mod::lemma_mod_multiples_vanish(k, j, size);
                        vstd::arithmetic::div_mod::lemma_small_mod(j as nat, size as nat);
                        assert(size * k + j == i) by (nonlinear_arith)
                            requires
                                i == k * size + j,
                        ;
                        assert(types::stands_for(added[j], part[j], j));
                    }
                }
                upto = next;
            }
        }
        assert(entries.take(entries.len() as int) =~= entries);
        Ok(final_results)
    }
}

/// The chunks hold all items, and none of them is empty.
proof fn lemma_chunk_count(len: int, size: int)
    requires
        len >= 0,
        size > 0,
    ensures
        crate::outside::chunk_count(len, size) >= 0,
        len <= crate::outside::chunk_count(len, size) * size,
        crate::outside::chunk_count(len, size) == 0 || (crate::outside::chunk_count(len, size) - 1)
            * size < len,
{
    let n = crate::outside::chunk_count(len, size);
    vstd::arithmetic::div_mod::lemma_fundamental_div_mod(len + size - 1, size);
    vstd::arithmetic::div_mod::lemma_mod_bound(len + size - 1, size);
    vstd::arithmetic::div_mod::lemma_div_pos_is_pos(len + size - 1, size);
    assert(n * size == size * n) by (nonlinear_arith);
    assert((n - 1) * size == n * size - size) by (nonlinear_arith);
}

} // verus!
