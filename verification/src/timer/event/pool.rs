//! A pool of timer event data for reuse.

use vstd::prelude::*;
use wide::{u32x4, u32x8};

use crate::outside::UnboundedQueue;
use crate::timer::event::lockfree_ring;
use crate::timer::event::traits::EventDataTrait;
use crate::timer::event::{ConnectionId, TimerEventData};

verus! {

/// How a pool is set up.
#[derive(Clone, Copy, Debug, PartialEq, Eq, Structural)]
pub struct PoolConfig {
    /// A pool that holds this many objects takes no more back.
    pub max_size: usize,
    /// The number of objects that a new pool holds.
    pub initial_size: usize,
    /// Whether batches are worked on in groups.
    pub enable_batch_optimization: bool,
}

impl Default for PoolConfig {
    fn default() -> (config: Self)
        ensures
            config == (PoolConfig {
                max_size: 1024,
                initial_size: 64,
                enable_batch_optimization: true,
            }),
    {
        PoolConfig { max_size: 1024, initial_size: 64, enable_batch_optimization: true }
    }
}

/// Figures on a pool.
#[derive(Clone, Copy, Debug, PartialEq, Eq, Structural)]
pub struct PoolStats {
    pub current_size: usize,
    pub max_size: usize,
    pub initial_size: usize,
}

/// The number of objects that a pool for `max_size` starts with: a sixteenth,
/// but no fewer than four and no more than sixty-four, and never more than the
/// pool holds.
pub open spec fn initial_size_for(max_size: usize) -> int {
    let sixteenth = max_size as int / 16;
    if sixteenth < 4 {
        lockfree_ring::smaller(4, max_size as int)
    } else {
        lockfree_ring::smaller(sixteenth, 64)
    }
}

/// How many of `n` objects a pool of `len` objects takes back.
pub open spec fn room_for(len: int, max_size: int, n: int) -> int {
    if len >= max_size {
        0
    } else {
        lockfree_ring::smaller(n, max_size - len)
    }
}

/// A pool of timer event data. Objects go back into use in the order in which
/// they came back.
#[verifier::reject_recursive_types(E)]
pub struct TimerEventPool<E> {
    pool: UnboundedQueue<TimerEventData<E>>,
    config: PoolConfig,
}

impl<E> View for TimerEventPool<E> {
    type V = Seq<TimerEventData<E>>;

    closed spec fn view(&self) -> Seq<TimerEventData<E>> {
        self.pool.contents()
    }
}

impl<E: EventDataTrait> TimerEventPool<E> {
    pub closed spec fn spec_config(&self) -> PoolConfig {
        self.config
    }

    /// A pool with the objects that `config` asks for.
    pub fn new(config: PoolConfig) -> (pool: Self)
        ensures
            pool.spec_config() == config,
            pool@.len() == config.initial_size,
            forall|i: int| 0 <= i < pool@.len() ==> (#[trigger] pool@[i]).connection_id == 0,
    {
        let mut pool: UnboundedQueue<TimerEventData<E>> = UnboundedQueue::new();
        let mut i: usize = 0;
        while i < config.initial_size
            invariant
                i <= config.initial_size,
                pool.contents().len() == i,
                forall|k: int| 0 <= k < i ==> (#[trigger] pool.contents()[k]).connection_id == 0,
            decreases config.initial_size - i,
        {
            pool.push(TimerEventData::new(0, E::default()));
            i = i + 1;
        }
        TimerEventPool { pool, config }
    }

    /// A pool with the default configuration.
    pub fn new_default() -> (pool: Self)
        ensures
            pool.spec_config() == (PoolConfig {
                max_size: 1024,
                initial_size: 64,
                enable_batch_optimization: true,
            }),
            pool@.len() == 64,
            forall|i: int| 0 <= i < pool@.len() ==> (#[trigger] pool@[i]).connection_id == 0,
    {
        TimerEventPool::new(PoolConfig::default())
    }

    /// A pool that holds up to `max_size` objects.
    pub fn with_capacity(max_size: usize) -> (pool: Self)
        ensures
            pool.spec_config() == (PoolConfig {
                max_size,
                initial_size: initial_size_for(max_size) as usize,
                enable_batch_optimization: true,
            }),
            pool@.len() == initial_size_for(max_size),
            pool@.len() <= max_size,
            forall|i: int| 0 <= i < pool@.len() ==> (#[trigger] pool@[i]).connection_id == 0,
    {
        let sixteenth: usize = max_size / 16;
        let initial_size: usize = if max_size < 4 {
            max_size
        } else if sixteenth < 4 {
            4
        } else if sixteenth > 64 {
            64
        } else {
            sixteenth
        };
        TimerEventPool::new(PoolConfig { max_size, initial_size, enable_batch_optimization: true })
    }

    /// Event data for an event; an object of the pool is used where there is one.
    pub fn acquire(&mut self, connection_id: ConnectionId, timeout_event: E) -> (data:
        TimerEventData<E>)
        ensures
            data == (TimerEventData { connection_id, timeout_event }),
            final(self).spec_config() == old(self).spec_config(),
            final(self)@ == old(self)@.skip(lockfree_ring::smaller(1, old(self)@.len() as int)),
    {
        match self.pool.pop() {
            Some(mut obj) => {
                obj.connection_id = connection_id;
                obj.timeout_event = timeout_event;
                obj
            },
            None => {
                assert(self@ =~= old(self)@.skip(0));
                TimerEventData::new(connection_id, timeout_event)
            },
        }
    }

    /// Gives an object back; a full pool drops it.
    pub fn release(&mut self, obj: TimerEventData<E>)
        ensures
            final(self).spec_config() == old(self).spec_config(),
            final(self)@ == (if old(self)@.len() < old(self).spec_config().max_size {
                old(self)@.push(obj)
            } else {
                old(self)@
            }),
    {
        if self.pool.len() < self.config.max_size {
            self.pool.push(obj);
        }
    }

    /// Event data for each request, in their order; objects of the pool are
    /// used as far as they go.
    pub fn batch_acquire(&mut self, requests: &[(ConnectionId, E)]) -> (data: Vec<
        TimerEventData<E>,
    >)
        ensures
            crate::timer::event::traits::made_from(data@, requests@),
            final(self).spec_config() == old(self).spec_config(),
            final(self)@ == old(self)@.skip(
                lockfree_ring::smaller(requests@.len() as int, old(self)@.len() as int),
            ),
    {
        let ghost before = self@;
        let mut result: Vec<TimerEventData<E>> = Vec::with_capacity(requests.len());
        let mut i: usize = 0;
        if !self.config.enable_batch_optimization {
            assert(before.skip(0) =~= before);
            while i < requests.len()
                invariant
                    i <= requests@.len(),
                    self.config == old(self).config,
                    self@ == before.skip(lockfree_ring::smaller(i as int, before.len() as int)),
                    result@.len() == i,
                    forall|k: int|
                        0 <= k < i ==> (#[trigger] result@[k]).connection_id == requests@[k].0
                            && cloned(requests@[k].1, result@[k].timeout_event),
                decreases requests@.len() - i,
            {
                let data = self.acquire(requests[i].0, requests[i].1.clone());
                result.push(data);
                assert(self@ =~= before.skip(lockfree_ring::smaller(i + 1, before.len() as int)));
                i = i + 1;
            }
            return result;
        }
        let mut exhausted = false;
        assert(before.skip(0) =~= before);
        while i < requests.len() && !exhausted
            invariant
                i <= requests@.len(),
                self.config == old(self).config,
                result@.len() <= before.len(),
                self@ == before.skip(result@.len() as int),
                exhausted ==> result@.len() == before.len() && result@.len() < requests@.len(),
                !exhausted ==> result@.len() == i,
            decreases requests@.len() - i,
        {
            match self.pool.pop() {
                Some(obj) => {
                    result.push(obj);
                    assert(self@ =~= before.skip(result@.len() as int));
                },
                None => {
                    exhausted = true;
                },
            }
            i = i + 1;
        }
        Self::simd_update_and_create(&mut result, requests);
        result
    }

    /// Gives objects back, as many as the pool has room for; the rest is dropped.
    pub fn batch_release(&mut self, objects: Vec<TimerEventData<E>>)
        ensures
            final(self).spec_config() == old(self).spec_config(),
            final(self)@ == old(self)@ + objects@.take(
                room_for(
                    old(self)@.len() as int,
                    old(self).spec_config().max_size as int,
                    objects@.len() as int,
                ),
            ),
    {
        let current_len = self.pool.len();
        let available: usize = self.config.max_size.saturating_sub(current_len);
        let to_release: usize = if objects.len() < available {
            objects.len()
        } else {
            available
        };
        let ghost all = objects@;
        let ghost before = self@;
        let mut released: usize = 0;
        assert(before + all.take(0) =~= before);
        for obj in iter: objects
            invariant
                iter.seq() == all,
                self.config == old(self).config,
                to_release <= all.len(),
                released == lockfree_ring::smaller(iter.index(), to_release as int),
                self@ == before + all.take(released as int),
        {
            if released < to_release {
                self.pool.push(obj);
                assert(self@ =~= before + all.take(released + 1));
                released = released + 1;
            }
        }
    }

    /// Overwrites the objects in `result` with the first requests, and makes new
    /// objects for the others.
    fn simd_update_and_create(
        result: &mut Vec<TimerEventData<E>>,
        requests: &[(ConnectionId, E)],
    )
        requires
            old(result)@.len() <= requests@.len(),
        ensures
            crate::timer::event::traits::made_from(final(result)@, requests@),
    {
        let total_requests = requests.len();
        let acquired_count = result.len();
        let mut i: usize = 0;
        while acquired_count - i >= 8
            invariant
                i <= acquired_count <= requests@.len(),
                result@.len() == acquired_count,
                made_up_to(result@, requests@, i as int),
            decreases acquired_count - i,
        {
            Self::simd_process_chunk(i, requests, result);
            i = i + 8;
        }
        while acquired_count - i >= 4
            invariant
                i <= acquired_count <= requests@.len(),
                result@.len() == acquired_count,
                made_up_to(result@, requests@, i as int),
            decreases acquired_count - i,
        {
            Self::simd_process_chunk_4(i, requests, result);
            i = i + 4;
        }
        while i < acquired_count
            invariant
                i <= acquired_count <= requests@.len(),
                result@.len() == acquired_count,
                made_up_to(result@, requests@, i as int),
            decreases acquired_count - i,
        {
            result[i].connection_id = requests[i].0;
            result[i].timeout_event = requests[i].1.clone();
            i = i + 1;
        }
        let mut j: usize = acquired_count;
        while total_requests - j >= 8
            invariant
                j <= total_requests == requests@.len(),
                result@.len() == j,
                made_up_to(result@, requests@, j as int),
            decreases total_requests - j,
        {
            Self::simd_create_chunk(j, requests, result);
            j = j + 8;
        }
        while total_requests - j >= 4
            invariant
                j <= total_requests == requests@.len(),
                result@.len() == j,
                made_up_to(result@, requests@, j as int),
            decreases total_requests - j,
        {
            Self::simd_create_chunk_4(j, requests, result);
            j = j + 4;
        }
        while j < total_requests
            invariant
                j <= total_requests == requests@.len(),
                result@.len() == j,
                made_up_to(result@, requests@, j as int),
            decreases total_requests - j,
        {
            result.push(TimerEventData::new(requests[j].0, requests[j].1.clone()));
            j = j + 1;
        }
    }

    /// Overwrites eight objects with eight requests.
    fn simd_process_chunk(
        start: usize,
        requests: &[(ConnectionId, E)],
        result: &mut Vec<TimerEventData<E>>,
    )
        requires
            start + 8 <= old(result)@.len() <= requests@.len(),
            made_up_to(old(result)@, requests@, start as int),
        ensures
            final(result)@.len() == old(result)@.len(),
            made_up_to(final(result)@, requests@, start + 8),
    {
        let ids = load_ids_8(start, requests);
        let total: usize = requests.len();
        let mut k: usize = 0;
        while k < 8
            invariant
                k <= 8,
                ids@ == Seq::new(8, |i: int| requests@[start + i].0),
                total == requests@.len(),
                start + 8 <= result@.len() <= requests@.len(),
                result@.len() == old(result)@.len(),
                made_up_to(result@, requests@, start + k),
            decreases 8 - k,
        {
            result[start + k].connection_id = ids[k];
            result[start + k].timeout_event = requests[start + k].1.clone();
            k = k + 1;
        }
    }

    /// Overwrites four objects with four requests.
    fn simd_process_chunk_4(
        start: usize,
        requests: &[(ConnectionId, E)],
        result: &mut Vec<TimerEventData<E>>,
    )
        requires
            start + 4 <= old(result)@.len() <= requests@.len(),
            made_up_to(old(result)@, requests@, start as int),
        ensures
            final(result)@.len() == old(result)@.len(),
            made_up_to(final(result)@, requests@, start + 4),
    {
        let ids = load_ids_4(start, requests);
        let total: usize = requests.len();
        let mut k: usize = 0;
        while k < 4
            invariant
                k <= 4,
                ids@ == Seq::new(4, |i: int| requests@[start + i].0),
                total == requests@.len(),
                start + 4 <= result@.len() <= requests@.len(),
                result@.len() == old(result)@.len(),
                made_up_to(result@, requests@, start + k),
            decreases 4 - k,
        {
            result[start + k].connection_id = ids[k];
            result[start + k].timeout_event = requests[start + k].1.clone();
            k = k + 1;
        }
    }

    /// Adds objects for eight requests.
    fn simd_create_chunk(
        start: usize,
        requests: &[(ConnectionId, E)],
        target: &mut Vec<TimerEventData<E>>,
    )
        requires
            old(target)@.len() == start,
            start + 8 <= requests@.len(),
            made_up_to(old(target)@, requests@, start as int),
        ensures
            final(target)@.len() == start + 8,
            made_up_to(final(target)@, requests@, start + 8),
    {
        let ids = load_ids_8(start, requests);
        let total: usize = requests.len();
        let mut k: usize = 0;
        while k < 8
            invariant
                k <= 8,
                ids@ == Seq::new(8, |i: int| requests@[start + i].0),
                total == requests@.len(),
                start + 8 <= requests@.len(),
                target@.len() == start + k,
                made_up_to(target@, requests@, start + k),
            decreases 8 - k,
        {
            target.push(TimerEventData::new(ids[k], requests[start + k].1.clone()));
            k = k + 1;
        }
    }

    /// Adds objects for four requests.
    fn simd_create_chunk_4(
        start: usize,
        requests: &[(ConnectionId, E)],
        target: &mut Vec<TimerEventData<E>>,
    )
        requires
            old(target)@.len() == start,
            start + 4 <= requests@.len(),
            made_up_to(old(target)@, requests@, start as int),
        ensures
            final(target)@.len() == start + 4,
            made_up_to(final(target)@, requests@, start + 4),
    {
        let ids = load_ids_4(start, requests);
        let total: usize = requests.len();
        let mut k: usize = 0;
        while k < 4
            invariant
                k <= 4,
                ids@ == Seq::new(4, |i: int| requests@[start + i].0),
                total == requests@.len(),
                start + 4 <= requests@.len(),
                target@.len() == start + k,
                made_up_to(target@, requests@, start + k),
            decreases 4 - k,
        {
            target.push(TimerEventData::new(ids[k], requests[start + k].1.clone()));
            k = k + 1;
        }
    }

    pub fn stats(&self) -> (stats: PoolStats)
        ensures
            stats.current_size == self@.len(),
            stats.max_size == self.spec_config().max_size,
            stats.initial_size == self.spec_config().initial_size,
    {
        PoolStats {
            current_size: self.pool.len(),
            max_size: self.config.max_size,
            initial_size: self.config.initial_size,
        }
    }

    pub fn config(&self) -> (config: &PoolConfig)
        ensures
            *config == self.spec_config(),
    {
        &self.config
    }
}

/// Whether the first `n` objects are made from the first `n` requests.
spec fn made_up_to<E: Clone>(
    data: Seq<TimerEventData<E>>,
    requests: Seq<(ConnectionId, E)>,
    n: int,
) -> bool {
    forall|i: int|
        0 <= i < n ==> (#[trigger] data[i]).connection_id == requests[i].0 && cloned(
            requests[i].1,
            data[i].timeout_event,
        )
}

/// The connection identifiers of eight requests, by way of a register.
fn load_ids_8<E>(start: usize, requests: &[(ConnectionId, E)]) -> (ids: [u32; 8])
    requires
        start + 8 <= requests@.len(),
    ensures
        ids@ == Seq::new(8, |i: int| requests@[start + i].0),
{
    let total: usize = requests.len();
    assert(start + 8 <= total);
    let ids: [u32; 8] = [
        requests[start].0,
        requests[start + 1].0,
        requests[start + 2].0,
        requests[start + 3].0,
        requests[start + 4].0,
        requests[start + 5].0,
        requests[start + 6].0,
        requests[start + 7].0,
    ];
    let processed = u32x8::new(ids).to_array();
    assert(processed@ =~= Seq::new(8, |i: int| requests@[start + i].0));
    processed
}

/// The connection identifiers of four requests, by way of a register.
fn load_ids_4<E>(start: usize, requests: &[(ConnectionId, E)]) -> (ids: [u32; 4])
    requires
        start + 4 <= requests@.len(),
    ensures
        ids@ == Seq::new(4, |i: int| requests@[start + i].0),
{
    let total: usize = requests.len();
    assert(start + 4 <= total);
    let ids: [u32; 4] = [
        requests[start].0,
        requests[start + 1].0,
        requests[start + 2].0,
        requests[start + 3].0,
    ];
    let processed = u32x4::new(ids).to_array();
    assert(processed@ =~= Seq::new(4, |i: int| requests@[start + i].0));
    processed
}

/// Giving objects back never makes a pool larger than its limit, or than it was.
pub proof fn law_pool_stays_in_bounds(len: int, max_size: int, n: int)
    requires
        0 <= len,
        0 <= max_size,
        0 <= n,
    ensures
        len + room_for(len, max_size, n) <= max_size || room_for(len, max_size, n) == 0,
        0 <= room_for(len, max_size, n) <= n,
{
}

} // verus!
