//! How timer event data is made: copied for small plain types, and recycled
//! through a pool where making it anew costs more.

use std::marker::PhantomData;
use vstd::prelude::*;

use crate::outside::needs_drop;
use crate::timer::event::lockfree_ring;
use crate::timer::event::pool::TimerEventPool;
use crate::timer::event::{ConnectionId, TimerEventData};

verus! {

/// What a timer event may be.
pub trait EventDataTrait: Clone + std::fmt::Debug + Default + Send + Sync + 'static {

}

impl<T> EventDataTrait for T where T: Clone + std::fmt::Debug + Default + Send + Sync + 'static {

}

/// Events up to this size, in bytes, count as small.
pub const SMALL_EVENT_SIZE: usize = 64;

/// Whether events of `size` bytes that need to be dropped or not are small and plain.
pub open spec fn copy_like(size: nat, drops: bool) -> bool {
    size <= SMALL_EVENT_SIZE && !drops
}

/// Whether `drops` is an answer that `needs_drop` gives for events of this type.
pub closed spec fn drop_answer<E>(drops: bool) -> bool {
    call_ensures(needs_drop::<E>, (), drops)
}

/// An answer is one that `needs_drop` itself gives.
pub(crate) proof fn law_answers_come_from_needs_drop<E>(drops: bool)
    ensures
        drop_answer::<E>(drops) <==> call_ensures(needs_drop::<E>, (), drops),
{
}

/// Asks `needs_drop` about events of this type.
fn ask_needs_drop<E>() -> (drops: bool)
    ensures
        drop_answer::<E>(drops),
{
    answer_of(needs_drop::<E>)
}

/// What `question` answers.
pub(crate) fn answer_of<F: Fn() -> bool>(question: F) -> (answer: bool)
    requires
        call_requires(question, ()),
    ensures
        call_ensures(question, (), answer),
{
    question()
}

/// Whether `data` is made from the requests, one for each, in their order.
pub open spec fn made_from<E: Clone>(
    data: Seq<TimerEventData<E>>,
    requests: Seq<(ConnectionId, E)>,
) -> bool {
    &&& data.len() == requests.len()
    &&& forall|i: int|
        0 <= i < data.len() ==> (#[trigger] data[i]).connection_id == requests[i].0 && cloned(
            requests[i].1,
            data[i].timeout_event,
        )
}

/// A way to make timer event data.
pub trait EventCreationStrategy<E: EventDataTrait> {
    fn create_single(connection_id: ConnectionId, timeout_event: E) -> (data: TimerEventData<E>)
        ensures
            data == (TimerEventData { connection_id, timeout_event }),
    ;

    fn create_batch(requests: &[(ConnectionId, E)]) -> (data: Vec<TimerEventData<E>>)
        ensures
            made_from(data@, requests@),
    ;

    /// Whether `pooled` is a right answer to [`EventCreationStrategy::should_use_pool`].
    spec fn right_to_pool(pooled: bool) -> bool;

    /// Whether event data is better recycled through a pool.
    fn should_use_pool() -> (pooled: bool)
        ensures
            <Self as EventCreationStrategy<E>>::right_to_pool(pooled),
    ;
}

/// Makes event data by copying.
pub struct CopyStrategy;

impl<E: EventDataTrait + Copy> EventCreationStrategy<E> for CopyStrategy {
    fn create_single(connection_id: ConnectionId, timeout_event: E) -> (data: TimerEventData<E>) {
        TimerEventData::new(connection_id, timeout_event)
    }

    fn create_batch(requests: &[(ConnectionId, E)]) -> (data: Vec<TimerEventData<E>>)
        ensures
            forall|i: int|
                0 <= i < data@.len() ==> (#[trigger] data@[i]).timeout_event == requests@[i].1,
    {
        let mut data: Vec<TimerEventData<E>> = Vec::with_capacity(requests.len());
        let mut i: usize = 0;
        while i < requests.len()
            invariant
                i <= requests@.len(),
                data@.len() == i,
                forall|j: int|
                    0 <= j < i ==> #[trigger] data@[j] == (TimerEventData {
                        connection_id: requests@[j].0,
                        timeout_event: requests@[j].1,
                    }),
            decreases requests@.len() - i,
        {
            data.push(TimerEventData::new(requests[i].0, requests[i].1));
            i = i + 1;
        }
        data
    }

    /// Never: a copy is cheaper than the pool.
    open spec fn right_to_pool(pooled: bool) -> bool {
        !pooled
    }

    fn should_use_pool() -> (pooled: bool) {
        false
    }
}

/// Makes event data by cloning.
pub struct CloneStrategy;

impl<E: EventDataTrait> EventCreationStrategy<E> for CloneStrategy {
    fn create_single(connection_id: ConnectionId, timeout_event: E) -> (data: TimerEventData<E>) {
        TimerEventData::new(connection_id, timeout_event)
    }

    fn create_batch(requests: &[(ConnectionId, E)]) -> (data: Vec<TimerEventData<E>>) {
        clone_requests(requests)
    }

    /// Always for a large event; a small one where `needs_drop` says that it has
    /// to be dropped.
    open spec fn right_to_pool(pooled: bool) -> bool {
        exists|drops: bool| #[trigger]
            drop_answer::<E>(drops) && pooled == !copy_like(vstd::layout::size_of::<E>(), drops)
    }

    fn should_use_pool() -> (pooled: bool) {
        let drops = ask_needs_drop::<E>();
        std::mem::size_of::<E>() > SMALL_EVENT_SIZE || drops
    }
}

/// Event data for each request, with a clone of its event.
pub(crate) fn clone_requests<E: Clone>(requests: &[(ConnectionId, E)]) -> (data: Vec<
    TimerEventData<E>,
>)
    ensures
        made_from(data@, requests@),
{
    let mut data: Vec<TimerEventData<E>> = Vec::with_capacity(requests.len());
    let mut i: usize = 0;
    while i < requests.len()
        invariant
            i <= requests@.len(),
            data@.len() == i,
            forall|j: int|
                0 <= j < i ==> (#[trigger] data@[j]).connection_id == requests@[j].0 && cloned(
                    requests@[j].1,
                    data@[j].timeout_event,
                ),
        decreases requests@.len() - i,
    {
        data.push(TimerEventData::new(requests[i].0, requests[i].1.clone()));
        i = i + 1;
    }
    data
}

/// Whether events of `size` bytes are small and plain; `drops` says whether
/// they have to be dropped.
pub fn is_copy_like_type(size: usize, drops: bool) -> (small: bool)
    ensures
        small == copy_like(size as nat, drops),
{
    size <= SMALL_EVENT_SIZE && !drops
}

/// Whether events of `size` bytes are better recycled through a pool; `drops`
/// says whether they have to be dropped.
pub fn should_pool_type(size: usize, drops: bool) -> (pooled: bool)
    ensures
        pooled == !copy_like(size as nat, drops),
{
    !is_copy_like_type(size, drops) && (size > SMALL_EVENT_SIZE || drops)
}

/// Makes timer event data, by the strategy that fits the event type.
pub struct EventFactory<E>(PhantomData<E>);

impl<E> Clone for EventFactory<E> {
    fn clone(&self) -> (factory: Self)
        ensures
            factory == *self,
    {
        EventFactory(PhantomData)
    }
}

impl<E: EventDataTrait> EventFactory<E> {
    pub fn new() -> Self {
        EventFactory(PhantomData)
    }

    /// Data for one event.
    pub fn create_event(&self, connection_id: ConnectionId, timeout_event: E) -> (data:
        TimerEventData<E>)
        ensures
            data == (TimerEventData { connection_id, timeout_event }),
    {
        self.dispatch_create_single(connection_id, timeout_event)
    }

    /// Data for each request, in their order.
    pub fn batch_create_events(&self, requests: &[(ConnectionId, E)]) -> (data: Vec<
        TimerEventData<E>,
    >)
        ensures
            made_from(data@, requests@),
    {
        self.dispatch_create_batch(requests)
    }

    /// Data for one event, from the pool where the event type is worth it.
    pub fn create_with_pool(
        &self,
        pool: &mut TimerEventPool<E>,
        connection_id: ConnectionId,
        timeout_event: E,
    ) -> (data: TimerEventData<E>)
        ensures
            data == (TimerEventData { connection_id, timeout_event }),
            final(pool).spec_config() == old(pool).spec_config(),
            exists|drops: bool| #[trigger]
                drop_answer::<E>(drops) && final(pool)@ == (if copy_like(
                    vstd::layout::size_of::<E>(),
                    drops,
                ) {
                    old(pool)@
                } else {
                    old(pool)@.skip(lockfree_ring::smaller(1, old(pool)@.len() as int))
                }),
    {
        if self.should_use_pool() {
            pool.acquire(connection_id, timeout_event)
        } else {
            self.create_event(connection_id, timeout_event)
        }
    }

    /// Data for each request, from the pool where the event type is worth it.
    pub fn batch_create_with_pool(
        &self,
        pool: &mut TimerEventPool<E>,
        requests: &[(ConnectionId, E)],
    ) -> (data: Vec<TimerEventData<E>>)
        ensures
            made_from(data@, requests@),
            final(pool).spec_config() == old(pool).spec_config(),
            exists|drops: bool| #[trigger]
                drop_answer::<E>(drops) && final(pool)@ == (if copy_like(
                    vstd::layout::size_of::<E>(),
                    drops,
                ) {
                    old(pool)@
                } else {
                    old(pool)@.skip(
                        lockfree_ring::smaller(requests@.len() as int, old(pool)@.len() as int),
                    )
                }),
    {
        if self.should_use_pool() {
            pool.batch_acquire(requests)
        } else {
            self.batch_create_events(requests)
        }
    }

    /// Gives data back to the pool, or drops it, where the event type is not
    /// worth a pool or the pool is full.
    pub fn return_to_pool(&self, event: TimerEventData<E>, pool: &mut TimerEventPool<E>)
        ensures
            final(pool).spec_config() == old(pool).spec_config(),
            exists|drops: bool| #[trigger]
                drop_answer::<E>(drops) && final(pool)@ == (if copy_like(
                    vstd::layout::size_of::<E>(),
                    drops,
                ) || old(pool)@.len() >= old(pool).spec_config().max_size {
                    old(pool)@
                } else {
                    old(pool)@.push(event)
                }),
    {
        if self.should_use_pool() {
            pool.release(event);
        }
    }

    /// Gives data back to the pool as far as there is room, or drops it where
    /// the event type is not worth a pool.
    pub fn batch_return_to_pool(
        &self,
        events: Vec<TimerEventData<E>>,
        pool: &mut TimerEventPool<E>,
    )
        ensures
            final(pool).spec_config() == old(pool).spec_config(),
            exists|drops: bool| #[trigger]
                drop_answer::<E>(drops) && final(pool)@ == (if copy_like(
                    vstd::layout::size_of::<E>(),
                    drops,
                ) {
                    old(pool)@
                } else {
                    old(pool)@ + events@.take(
                        crate::timer::event::pool::room_for(
                            old(pool)@.len() as int,
                            old(pool).spec_config().max_size as int,
                            events@.len() as int,
                        ),
                    )
                }),
    {
        if self.should_use_pool() {
            pool.batch_release(events);
        }
    }

    fn dispatch_create_single(&self, connection_id: ConnectionId, timeout_event: E) -> (data:
        TimerEventData<E>)
        ensures
            data == (TimerEventData { connection_id, timeout_event }),
    {
        TimerEventData::new(connection_id, timeout_event)
    }

    fn dispatch_create_batch(&self, requests: &[(ConnectionId, E)]) -> (data: Vec<
        TimerEventData<E>,
    >)
        ensures
            made_from(data@, requests@),
    {
        if self.is_copy_like() {
            self.create_batch_copy_optimized(requests)
        } else {
            self.create_batch_clone_based(requests)
        }
    }

    /// Whether the event type is better recycled through a pool: it is not
    /// small and plain.
    pub fn should_use_pool(&self) -> (pooled: bool)
        ensures
            exists|drops: bool| #[trigger]
                drop_answer::<E>(drops) && pooled == !copy_like(
                    vstd::layout::size_of::<E>(),
                    drops,
                ),
    {
        should_pool_type(std::mem::size_of::<E>(), ask_needs_drop::<E>())
    }

    /// Whether the event type is small and plain.
    pub fn is_copy_like(&self) -> (small: bool)
        ensures
            exists|drops: bool| #[trigger]
                drop_answer::<E>(drops) && small == copy_like(vstd::layout::size_of::<E>(), drops),
    {
        is_copy_like_type(std::mem::size_of::<E>(), ask_needs_drop::<E>())
    }

    fn create_batch_copy_optimized(&self, requests: &[(ConnectionId, E)]) -> (data: Vec<
        TimerEventData<E>,
    >)
        ensures
            made_from(data@, requests@),
    {
        clone_requests(requests)
    }

    fn create_batch_clone_based(&self, requests: &[(ConnectionId, E)]) -> (data: Vec<
        TimerEventData<E>,
    >)
        ensures
            made_from(data@, requests@),
    {
        clone_requests(requests)
    }
}

} // verus!
