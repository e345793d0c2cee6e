//! Buffers that are kept between batches.

use vstd::prelude::*;

use crate::timer::event::traits::EventDataTrait;
use crate::timer::event::TimerEvent;
use crate::timer::parallel::types;
use crate::timer::parallel::types::{process_entry, ProcessedTimerData};
use crate::timer::wheel::TimerEntry;

verus! {

/// Batches up to this size use the small buffer.
pub const SMALL_BATCH_SIZE: usize = 64;

/// The buffers of each kind that a processor keeps.
pub const KEPT_BUFFERS: usize = 4;

/// The entries that each of those buffers has room for at first.
pub const KEPT_CAPACITY: usize = 1024;

/// Buffers that are used in turn.
pub struct MemoryPool<E> {
    data_buffers: Vec<Vec<ProcessedTimerData<E>>>,
    id_buffers: Vec<Vec<u32>>,
    timestamp_buffers: Vec<Vec<u64>>,
    current_buffer_index: usize,
}

impl<E: EventDataTrait> MemoryPool<E> {
    /// There is at least one buffer, and as many of each kind.
    pub closed spec fn wf(&self) -> bool {
        &&& self.data_buffers@.len() > 0
        &&& self.id_buffers@.len() == self.data_buffers@.len()
        &&& self.timestamp_buffers@.len() == self.data_buffers@.len()
    }

    /// What the data buffers hold.
    pub closed spec fn data(&self) -> Seq<Seq<ProcessedTimerData<E>>> {
        self.data_buffers@.map_values(|b: Vec<ProcessedTimerData<E>>| b@)
    }

    /// What the buffers for identifiers hold.
    pub closed spec fn ids(&self) -> Seq<Seq<u32>> {
        self.id_buffers@.map_values(|b: Vec<u32>| b@)
    }

    /// What the buffers for times hold.
    pub closed spec fn timestamps(&self) -> Seq<Seq<u64>> {
        self.timestamp_buffers@.map_values(|b: Vec<u64>| b@)
    }

    /// How many data buffers were handed out, as a counter of machine width.
    pub closed spec fn index(&self) -> usize {
        self.current_buffer_index
    }

    /// Whether there are `count` buffers of each kind, all empty and none handed out.
    pub open spec fn untouched(&self, count: usize) -> bool {
        &&& self.index() == 0
        &&& self.data() == Seq::new(count as nat, |i: int| Seq::<ProcessedTimerData<E>>::empty())
        &&& self.ids() == Seq::new(count as nat, |i: int| Seq::<u32>::empty())
        &&& self.timestamps() == Seq::new(count as nat, |i: int| Seq::<u64>::empty())
    }

    /// A pool of `buffer_count` empty buffers of each kind.
    pub fn new(buffer_count: usize, buffer_capacity: usize) -> (pool: Self)
        requires
            buffer_count > 0,
        ensures
            pool.wf(),
            pool.untouched(buffer_count),
    {
        let mut data_buffers: Vec<Vec<ProcessedTimerData<E>>> = Vec::with_capacity(buffer_count);
        let mut id_buffers: Vec<Vec<u32>> = Vec::with_capacity(buffer_count);
        let mut timestamp_buffers: Vec<Vec<u64>> = Vec::with_capacity(buffer_count);
        let mut i: usize = 0;
        while i < buffer_count
            invariant
                i <= buffer_count,
                data_buffers@.len() == i,
                id_buffers@.len() == i,
                timestamp_buffers@.len() == i,
                forall|k: int| 0 <= k < i ==> (#[trigger] data_buffers@[k])@.len() == 0,
                forall|k: int| 0 <= k < i ==> (#[trigger] id_buffers@[k])@.len() == 0,
                forall|k: int| 0 <= k < i ==> (#[trigger] timestamp_buffers@[k])@.len() == 0,
            decreases buffer_count - i,
        {
            data_buffers.push(Vec::with_capacity(buffer_capacity));
            id_buffers.push(Vec::with_capacity(buffer_capacity));
            timestamp_buffers.push(Vec::with_capacity(buffer_capacity));
            i = i + 1;
        }
        let pool = MemoryPool {
            data_buffers,
            id_buffers,
            timestamp_buffers,
            current_buffer_index: 0,
        };
        proof {
            assert forall|k: int| 0 <= k < buffer_count implies #[trigger] pool.data()[k]
                == Seq::<ProcessedTimerData<E>>::empty() by {
                assert(pool.data_buffers@[k]@.len() == 0);
            }
            assert forall|k: int| 0 <= k < buffer_count implies #[trigger] pool.ids()[k]
                == Seq::<u32>::empty() by {
                assert(pool.id_buffers@[k]@.len() == 0);
            }
            assert forall|k: int| 0 <= k < buffer_count implies #[trigger] pool.timestamps()[k]
                == Seq::<u64>::empty() by {
                assert(pool.timestamp_buffers@[k]@.len() == 0);
            }
            assert(pool.data() =~= Seq::new(
                buffer_count as nat,
                |i: int| Seq::<ProcessedTimerData<E>>::empty(),
            ));
            assert(pool.ids() =~= Seq::new(buffer_count as nat, |i: int| Seq::<u32>::empty()));
            assert(pool.timestamps() =~= Seq::new(
                buffer_count as nat,
                |i: int| Seq::<u64>::empty(),
            ));
        }
        pool
    }

    /// Empties the next data buffer and hands it out.
    pub fn get_data_buffer(&mut self) -> (buffer: &mut Vec<ProcessedTimerData<E>>)
        requires
            old(self).wf(),
        ensures
            buffer@ == Seq::<ProcessedTimerData<E>>::empty(),
            final(self).wf(),
            final(self).index() == old(self).index().wrapping_add(1),
            final(self).data() == old(self).data().update(
                old(self).index() as int % old(self).data().len() as int,
                final(buffer)@,
            ),
            final(self).ids() == old(self).ids(),
            final(self).timestamps() == old(self).timestamps(),
    {
        let index: usize = self.current_buffer_index % self.data_buffers.len();
        self.current_buffer_index = self.current_buffer_index.wrapping_add(1);
        self.data_buffers[index].clear();
        &mut self.data_buffers[index]
    }

    /// Empties the current buffers for identifiers and for times and hands them out.
    pub fn get_work_buffers(&mut self) -> (buffers: (&mut Vec<u32>, &mut Vec<u64>))
        requires
            old(self).wf(),
        ensures
            buffers.0@ == Seq::<u32>::empty(),
            buffers.1@ == Seq::<u64>::empty(),
            final(self).wf(),
            final(self).index() == old(self).index(),
            final(self).data() == old(self).data(),
            final(self).ids() == old(self).ids().update(
                old(self).index() as int % old(self).data().len() as int,
                final(buffers.0)@,
            ),
            final(self).timestamps() == old(self).timestamps().update(
                old(self).index() as int % old(self).data().len() as int,
                final(buffers.1)@,
            ),
    {
        let index: usize = self.current_buffer_index % self.data_buffers.len();
        self.id_buffers[index].clear();
        self.timestamp_buffers[index].clear();
        (&mut self.id_buffers[index], &mut self.timestamp_buffers[index])
    }
}

/// Converts due timers into buffers that are kept between batches.
pub struct ZeroAllocProcessor<E> {
    memory_pool: MemoryPool<E>,
    small_buffer: Vec<ProcessedTimerData<E>>,
}

impl<E: EventDataTrait> ZeroAllocProcessor<E> {
    pub closed spec fn wf(&self) -> bool {
        self.memory_pool.wf()
    }

    /// The buffers for large batches.
    pub closed spec fn kept(&self) -> MemoryPool<E> {
        self.memory_pool
    }

    /// What the buffer for small batches holds.
    pub closed spec fn small(&self) -> Seq<ProcessedTimerData<E>> {
        self.small_buffer@
    }

    /// A processor whose buffers are empty.
    pub fn new() -> (processor: Self)
        ensures
            processor.wf(),
            processor.kept().untouched(KEPT_BUFFERS),
            processor.small() == Seq::<ProcessedTimerData<E>>::empty(),
    {
        ZeroAllocProcessor {
            memory_pool: MemoryPool::new(KEPT_BUFFERS, KEPT_CAPACITY),
            small_buffer: Vec::with_capacity(SMALL_BATCH_SIZE),
        }
    }

    /// What stands for each of the timers of a small batch; of a larger batch,
    /// nothing.
    pub fn process_small_batch<C>(
        &mut self,
        timer_entries: &[TimerEntry<TimerEvent<E, C>>],
    ) -> (data: &[ProcessedTimerData<E>])
        requires
            old(self).wf(),
        ensures
            final(self).wf(),
            timer_entries@.len() <= SMALL_BATCH_SIZE ==> types::processed_from(
                data@,
                timer_entries@,
            ),
            timer_entries@.len() > SMALL_BATCH_SIZE ==> data@.len() == 0,
            final(self).small() == data@,
            final(self).kept() == old(self).kept(),
    {
        self.small_buffer.clear();
        if timer_entries.len() <= SMALL_BATCH_SIZE {
            fill(&mut self.small_buffer, timer_entries);
        }
        self.small_buffer.as_slice()
    }

    /// What stands for each of the timers.
    pub fn process_large_batch<C>(
        &mut self,
        timer_entries: &[TimerEntry<TimerEvent<E, C>>],
    ) -> (data: &[ProcessedTimerData<E>])
        requires
            old(self).wf(),
        ensures
            final(self).wf(),
            types::processed_from(data@, timer_entries@),
            final(self).small() == old(self).small(),
            final(self).kept().index() == old(self).kept().index().wrapping_add(1),
            final(self).kept().data() == old(self).kept().data().update(
                old(self).kept().index() as int % old(self).kept().data().len() as int,
                data@,
            ),
            final(self).kept().ids() == old(self).kept().ids(),
            final(self).kept().timestamps() == old(self).kept().timestamps(),
    {
        let buffer = self.memory_pool.get_data_buffer();
        fill(buffer, timer_entries);
        buffer.as_slice()
    }
}

/// Fills an empty buffer with what stands for the timers.
fn fill<E: EventDataTrait, C>(
    buffer: &mut Vec<ProcessedTimerData<E>>,
    timer_entries: &[TimerEntry<TimerEvent<E, C>>],
)
    requires
        old(buffer)@.len() == 0,
    ensures
        types::processed_from(final(buffer)@, timer_entries@),
{
    let mut i: usize = 0;
    while i < timer_entries.len()
        invariant
            i <= timer_entries@.len(),
            buffer@.len() == i,
            forall|k: int|
                0 <= k < i ==> types::stands_for(#[trigger] buffer@[k], timer_entries@[k], k),
        decreases timer_entries@.len() - i,
    {
        buffer.push(process_entry(&timer_entries[i], i));
        i = i + 1;
    }
}

impl<E: EventDataTrait> Default for ZeroAllocProcessor<E> {
    fn default() -> (processor: Self)
        ensures
            processor.wf(),
            processor.kept().untouched(KEPT_BUFFERS),
            processor.small() == Seq::<ProcessedTimerData<E>>::empty(),
    {
        Self::new()
    }
}

} // verus!
