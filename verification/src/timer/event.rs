//! Timer events and the data that they carry.

pub mod laws;
pub mod lockfree_ring;
pub mod memory_pool;
pub mod performance_bench;
pub mod pool;
pub mod pool_manager;
pub mod traits;
pub mod zero_copy;

use vstd::prelude::*;

use crate::timer::event::pool::TimerEventPool;
use crate::timer::event::traits::EventDataTrait;

verus! {

/// Identifies a timer event.
pub type TimerEventId = u64;

/// Identifies the connection that a timer belongs to.
pub type ConnectionId = u32;

/// What a connection's timer may stand for.
#[derive(Clone, Copy, Debug, PartialEq, Eq, Structural, Hash)]
pub enum TimeoutEvent {
    /// Nothing has been heard from the peer for too long.
    IdleTimeout,
    /// A retransmission is due.
    RetransmissionTimeout,
    /// The answer to a path validation is missing.
    PathValidationTimeout,
    /// The handshake or the connection takes too long.
    ConnectionTimeout,
    /// The retransmission of one packet is due.
    PacketRetransmissionTimeout { sequence_number: u32, timer_id: u64 },
}

impl Default for TimeoutEvent {
    fn default() -> (event: Self)
        ensures
            event == TimeoutEvent::IdleTimeout,
    {
        TimeoutEvent::IdleTimeout
    }
}

/// What a timer tells its owner when it fires.
#[derive(Debug, PartialEq, Eq)]
pub struct TimerEventData<E> {
    pub connection_id: ConnectionId,
    pub timeout_event: E,
}

impl<E: Clone> Clone for TimerEventData<E> {
    fn clone(&self) -> (copy: Self)
        ensures
            copy.connection_id == self.connection_id,
            cloned(self.timeout_event, copy.timeout_event),
    {
        TimerEventData {
            connection_id: self.connection_id,
            timeout_event: self.timeout_event.clone(),
        }
    }
}

impl<E> TimerEventData<E> {
    pub fn new(connection_id: ConnectionId, timeout_event: E) -> (data: Self)
        ensures
            data == (TimerEventData { connection_id, timeout_event }),
    {
        TimerEventData { connection_id, timeout_event }
    }
}

impl<E: EventDataTrait> TimerEventData<E> {
    /// Data for an event, from the pool as far as it goes.
    pub fn from_pool(
        pool: &mut TimerEventPool<E>,
        connection_id: ConnectionId,
        timeout_event: E,
    ) -> (data: Self)
        ensures
            data == (TimerEventData { connection_id, timeout_event }),
            final(pool).spec_config() == old(pool).spec_config(),
            final(pool)@ == old(pool)@.skip(lockfree_ring::smaller(1, old(pool)@.len() as int)),
    {
        pool.acquire(connection_id, timeout_event)
    }

    /// Data for each request, in their order, from the pool as far as it goes.
    pub fn batch_from_pool(
        pool: &mut TimerEventPool<E>,
        requests: &[(ConnectionId, E)],
    ) -> (data: Vec<Self>)
        ensures
            traits::made_from(data@, requests@),
            final(pool).spec_config() == old(pool).spec_config(),
            final(pool)@ == old(pool)@.skip(
                lockfree_ring::smaller(requests@.len() as int, old(pool)@.len() as int),
            ),
    {
        pool.batch_acquire(requests)
    }

    /// Gives the object back; a full pool drops it.
    pub fn return_to_pool(self, pool: &mut TimerEventPool<E>)
        ensures
            final(pool).spec_config() == old(pool).spec_config(),
            final(pool)@ == (if old(pool)@.len() < old(pool).spec_config().max_size {
                old(pool)@.push(self)
            } else {
                old(pool)@
            }),
    {
        pool.release(self);
    }

    /// Gives objects back, as many as the pool has room for.
    pub fn batch_return_to_pool(objects: Vec<Self>, pool: &mut TimerEventPool<E>)
        ensures
            final(pool).spec_config() == old(pool).spec_config(),
            final(pool)@ == old(pool)@ + objects@.take(
                pool::room_for(
                    old(pool)@.len() as int,
                    old(pool).spec_config().max_size as int,
                    objects@.len() as int,
                ),
            ),
    {
        pool.batch_release(objects);
    }
}

/// A timer event, with the callback that it is reported to.
#[derive(Debug, PartialEq, Eq)]
pub struct TimerEvent<E, C> {
    pub id: TimerEventId,
    pub data: TimerEventData<E>,
    pub callback: C,
}

impl<E, C> TimerEvent<E, C> {
    pub fn new(id: TimerEventId, data: TimerEventData<E>, callback: C) -> (event: Self)
        ensures
            event == (TimerEvent { id, data, callback }),
    {
        TimerEvent { id, data, callback }
    }
}

impl<E: EventDataTrait, C: Clone> TimerEvent<E, C> {
    /// An event whose data comes from the pool as far as it goes.
    pub fn from_pool(
        pool: &mut TimerEventPool<E>,
        id: TimerEventId,
        connection_id: ConnectionId,
        timeout_event: E,
        callback: C,
    ) -> (event: Self)
        ensures
            event == (TimerEvent {
                id,
                data: TimerEventData { connection_id, timeout_event },
                callback,
            }),
            final(pool).spec_config() == old(pool).spec_config(),
            final(pool)@ == old(pool)@.skip(lockfree_ring::smaller(1, old(pool)@.len() as int)),
    {
        TimerEvent {
            id,
            data: TimerEventData::from_pool(pool, connection_id, timeout_event),
            callback,
        }
    }

    /// An event for each request, in their order, with identifiers from
    /// `start_id` on and the callback at the request's place.
    pub fn batch_from_pool(
        pool: &mut TimerEventPool<E>,
        start_id: TimerEventId,
        requests: &[(ConnectionId, E)],
        callbacks: &[C],
    ) -> (events: Vec<Self>)
        requires
            requests@.len() == callbacks@.len(),
            start_id + requests@.len() <= u64::MAX + 1,
        ensures
            events@.len() == requests@.len(),
            forall|i: int|
                0 <= i < events@.len() ==> {
                    &&& (#[trigger] events@[i]).id == start_id + i
                    &&& events@[i].data.connection_id == requests@[i].0
                    &&& cloned(requests@[i].1, events@[i].data.timeout_event)
                    &&& cloned(callbacks@[i], events@[i].callback)
                },
            final(pool).spec_config() == old(pool).spec_config(),
            final(pool)@ == old(pool)@.skip(
                lockfree_ring::smaller(requests@.len() as int, old(pool)@.len() as int),
            ),
    {
        let data_objects = TimerEventData::batch_from_pool(pool, requests);
        let ghost objects = data_objects@;
        let mut events: Vec<Self> = Vec::with_capacity(requests.len());
        let mut i: usize = 0;
        for data in iter: data_objects
            invariant
                iter.seq() == objects,
                traits::made_from(objects, requests@),
                requests@.len() == callbacks@.len(),
                start_id + requests@.len() <= u64::MAX + 1,
                i == iter.index(),
                events@.len() == i,
                forall|k: int|
                    0 <= k < events@.len() ==> {
                        &&& (#[trigger] events@[k]).id == start_id + k
                        &&& events@[k].data == objects[k]
                        &&& cloned(callbacks@[k], events@[k].callback)
                    },
        {
            let id: TimerEventId = start_id + i as u64;
            events.push(TimerEvent { id, data, callback: callbacks[i].clone() });
            i = i + 1;
        }
        events
    }
}

} // verus!
