//! Delivery of events by reference, and a dispatcher that moves events into
//! slots without copying them.

use std::marker::PhantomData;
use vstd::prelude::*;

use crate::timer::event::lockfree_ring;
use crate::timer::event::lockfree_ring::{DispatcherState, RingBuffer, CHECKED_BUFFERS};
use crate::timer::event::memory_pool;
use crate::timer::event::memory_pool::{BatchCounts, OptimizedBatchProcessor};
use crate::timer::event::traits::{clone_requests, EventDataTrait};
use crate::timer::event::{ConnectionId, TimerEventData};

verus! {

/// From this many events on, a batch counts as large.
pub const BATCH_THRESHOLD: usize = 32;

/// Up to this many requests, events are made without the pool.
pub const DIRECT_CREATION_LIMIT: usize = 64;

/// Something that events can be delivered to by reference.
pub trait ZeroCopyEventDelivery<E> {
    /// Whether `event` may be delivered.
    spec fn takes(&self, event: TimerEventData<E>) -> bool;

    /// Whether the delivery of `event` may have the outcome `delivered`.
    spec fn may_deliver(&self, event: TimerEventData<E>, delivered: bool) -> bool;

    /// Delivers one event, and says whether it was taken.
    fn deliver_event_ref(&self, event_ref: &TimerEventData<E>) -> (delivered: bool)
        requires
            self.takes(*event_ref),
        ensures
            self.may_deliver(*event_ref, delivered),
    ;

    /// Delivers events in their order, and says how many were taken.
    fn batch_deliver_event_refs(&self, event_refs: &[&TimerEventData<E>]) -> (count: usize)
        requires
            forall|i: int| 0 <= i < event_refs@.len() ==> self.takes(*#[trigger] event_refs@[i]),
        ensures
            exists|outcomes: Seq<bool>|
                {
                    &&& outcomes.len() == event_refs@.len()
                    &&& forall|i: int|
                        0 <= i < outcomes.len() ==> self.may_deliver(
                            *event_refs@[i],
                            #[trigger] outcomes[i],
                        )
                    &&& count == #[trigger] successes(outcomes)
                },
    ;
}

/// How many of `outcomes` are true.
pub open spec fn successes(outcomes: Seq<bool>) -> nat
    decreases outcomes.len(),
{
    if outcomes.len() == 0 {
        0
    } else {
        successes(outcomes.drop_last()) + if outcomes.last() {
            1nat
        } else {
            0nat
        }
    }
}

/// Delivers events to a closure.
pub struct RefEventHandler<E, F: Fn(&TimerEventData<E>) -> bool> {
    handler: F,
    marker: PhantomData<E>,
}

impl<E, F: Fn(&TimerEventData<E>) -> bool> RefEventHandler<E, F> {
    /// The closure that is called.
    pub closed spec fn closure(&self) -> F {
        self.handler
    }

    pub fn new(handler: F) -> (result: Self)
        ensures
            result.closure() == handler,
    {
        RefEventHandler { handler, marker: PhantomData }
    }
}

impl<E, F: Fn(&TimerEventData<E>) -> bool> ZeroCopyEventDelivery<E> for RefEventHandler<E, F> {
    open spec fn takes(&self, event: TimerEventData<E>) -> bool {
        call_requires(self.closure(), (&event,))
    }

    open spec fn may_deliver(&self, event: TimerEventData<E>, delivered: bool) -> bool {
        call_ensures(self.closure(), (&event,), delivered)
    }

    fn deliver_event_ref(&self, event_ref: &TimerEventData<E>) -> (delivered: bool) {
        (self.handler)(event_ref)
    }

    fn batch_deliver_event_refs(&self, event_refs: &[&TimerEventData<E>]) -> (count: usize) {
        let mut count: usize = 0;
        let ghost mut outcomes: Seq<bool> = Seq::empty();
        let mut i: usize = 0;
        while i < event_refs.len()
            invariant
                i <= event_refs@.len(),
                forall|k: int|
                    0 <= k < event_refs@.len() ==> self.takes(*#[trigger] event_refs@[k]),
                outcomes.len() == i,
                forall|k: int|
                    0 <= k < outcomes.len() ==> self.may_deliver(
                        *event_refs@[k],
                        #[trigger] outcomes[k],
                    ),
                count == successes(outcomes),
                count <= i,
            decreases event_refs@.len() - i,
        {
            let event_ref: &TimerEventData<E> = event_refs[i];
            assert(self.takes(*event_refs@[i as int]));
            let delivered = (self.handler)(event_ref);
            proof {
                let more = outcomes.push(delivered);
                assert(more.drop_last() =~= outcomes);
                outcomes = more;
            }
            if delivered {
                count = count + 1;
            }
            i = i + 1;
        }
        count
    }
}

/// Where the closure answers by the event alone, as `answer` says, the delivery
/// of a batch counts what the deliveries of its events one by one give, in their
/// order: the events that the closure answers with true. Here `count` is what
/// `batch_deliver_event_refs` may give for the events, and `singles` what
/// `deliver_event_ref` may give for each.
pub proof fn law_batch_delivers_like_single_deliveries<
    E,
    F: Fn(&TimerEventData<E>) -> bool,
>(
    handler: RefEventHandler<E, F>,
    answer: spec_fn(TimerEventData<E>) -> bool,
    event_refs: Seq<&TimerEventData<E>>,
    count: usize,
    singles: Seq<bool>,
)
    requires
        forall|event: &TimerEventData<E>, taken: bool| #[trigger]
            call_ensures(handler.closure(), (event,), taken) ==> taken == answer(*event),
        exists|outcomes: Seq<bool>|
            {
                &&& outcomes.len() == event_refs.len()
                &&& forall|i: int|
                    0 <= i < outcomes.len() ==> handler.may_deliver(
                        *event_refs[i],
                        #[trigger] outcomes[i],
                    )
                &&& count == #[trigger] successes(outcomes)
            },
        singles.len() == event_refs.len(),
        forall|i: int|
            0 <= i < singles.len() ==> handler.may_deliver(*event_refs[i], #[trigger] singles[i]),
    ensures
        singles == event_refs.map_values(|event: &TimerEventData<E>| answer(*event)),
        count == successes(singles),
        count == event_refs.filter(|event: &TimerEventData<E>| answer(*event)).len(),
{
    let outcomes = choose|outcomes: Seq<bool>|
        {
            &&& outcomes.len() == event_refs.len()
            &&& forall|i: int|
                0 <= i < outcomes.len() ==> handler.may_deliver(
                    *event_refs[i],
                    #[trigger] outcomes[i],
                )
            &&& count == #[trigger] successes(outcomes)
        };
    let answers = event_refs.map_values(|event: &TimerEventData<E>| answer(*event));
    assert forall|i: int| 0 <= i < singles.len() implies #[trigger] singles[i] == answers[i] by {
        assert(handler.may_deliver(*event_refs[i], singles[i]));
    }
    assert(singles =~= answers);
    assert forall|i: int| 0 <= i < outcomes.len() implies #[trigger] outcomes[i] == answers[i] by {
        assert(handler.may_deliver(*event_refs[i], outcomes[i]));
    }
    assert(outcomes =~= answers);
    lemma_successes_filter(event_refs, |event: &TimerEventData<E>| answer(*event));
}

/// As many answers are true as there are items that the answer is true of.
pub(crate) proof fn lemma_successes_filter<T>(items: Seq<T>, answer: spec_fn(T) -> bool)
    ensures
        successes(items.map_values(answer)) == items.filter(answer).len(),
    decreases items.len(),
{
    reveal(Seq::filter);
    if items.len() > 0 {
        let front = items.drop_last();
        lemma_successes_filter(front, answer);
        assert(items.map_values(answer).drop_last() =~= front.map_values(answer));
        assert(items.map_values(answer).last() == answer(items.last()));
    } else {
        assert(items.map_values(answer).len() == 0);
    }
}

/// A slot for events, with a count of the writes that went through and of those
/// that did not. The counters have machine width.
#[verifier::reject_recursive_types(E)]
pub struct EventSlot<E> {
    ring_buffer: RingBuffer<E>,
    written_count: usize,
    failed_writes: usize,
}

impl<E> View for EventSlot<E> {
    type V = Seq<TimerEventData<E>>;

    closed spec fn view(&self) -> Seq<TimerEventData<E>> {
        self.ring_buffer@
    }
}

impl<E> EventSlot<E> {
    pub closed spec fn wf(&self) -> bool {
        self.ring_buffer.wf()
    }

    pub closed spec fn spec_capacity(&self) -> usize {
        self.ring_buffer.spec_capacity()
    }

    pub closed spec fn written(&self) -> usize {
        self.written_count
    }

    pub closed spec fn failed(&self) -> usize {
        self.failed_writes
    }

    /// A slot never holds more than its capacity.
    pub proof fn law_slot_is_never_overfull(&self)
        requires
            self.wf(),
        ensures
            self@.len() <= self.spec_capacity(),
            self.spec_capacity() > 0,
    {
        self.ring_buffer.law_never_overfull();
    }

    /// An empty slot for `capacity` events, and for one at least.
    pub fn new(capacity: usize) -> (slot: Self)
        requires
            capacity <= isize::MAX,
        ensures
            slot.wf(),
            slot@ == Seq::<TimerEventData<E>>::empty(),
            slot.spec_capacity() == (if capacity == 0 {
                1
            } else {
                capacity
            }),
            slot.written() == 0,
            slot.failed() == 0,
    {
        EventSlot { ring_buffer: RingBuffer::new(capacity), written_count: 0, failed_writes: 0 }
    }

    /// Writes an event, and says whether it found room; one that did not is dropped.
    pub fn write_event(&mut self, event: TimerEventData<E>) -> (written: bool)
        requires
            old(self).wf(),
        ensures
            final(self).wf(),
            final(self).spec_capacity() == old(self).spec_capacity(),
            written == (old(self)@.len() < old(self).spec_capacity()),
            final(self)@ == (if written {
                old(self)@.push(event)
            } else {
                old(self)@
            }),
            final(self).written() == (if written {
                old(self).written().wrapping_add(1)
            } else {
                old(self).written()
            }),
            final(self).failed() == (if written {
                old(self).failed()
            } else {
                old(self).failed().wrapping_add(1)
            }),
    {
        match self.try_write_event(event) {
            Ok(_) => true,
            Err(_) => false,
        }
    }

    /// Writes an event, or hands it back where there is no room.
    pub fn try_write_event(&mut self, event: TimerEventData<E>) -> (result: Result<
        (),
        TimerEventData<E>,
    >)
        requires
            old(self).wf(),
        ensures
            final(self).wf(),
            final(self).spec_capacity() == old(self).spec_capacity(),
            match result {
                Ok(_) => {
                    &&& old(self)@.len() < old(self).spec_capacity()
                    &&& final(self)@ == old(self)@.push(event)
                    &&& final(self).written() == old(self).written().wrapping_add(1)
                    &&& final(self).failed() == old(self).failed()
                },
                Err(rejected) => {
                    &&& old(self)@.len() == old(self).spec_capacity()
                    &&& final(self)@ == old(self)@
                    &&& rejected == event
                    &&& final(self).written() == old(self).written()
                    &&& final(self).failed() == old(self).failed().wrapping_add(1)
                },
            },
    {
        match self.ring_buffer.try_write(event) {
            Ok(_) => {
                self.written_count = self.written_count.wrapping_add(1);
                Ok(())
            },
            Err(event) => {
                self.failed_writes = self.failed_writes.wrapping_add(1);
                Err(event)
            },
        }
    }

    /// Writes events until the slot is full, and says how many found room.
    pub fn batch_write_events(&mut self, events: Vec<TimerEventData<E>>) -> (written: usize)
        requires
            old(self).wf(),
        ensures
            final(self).wf(),
            final(self).spec_capacity() == old(self).spec_capacity(),
            written == lockfree_ring::fitting(old(self)@, old(self).spec_capacity() as int, events@).len(),
            final(self)@ == old(self)@ + lockfree_ring::fitting(
                old(self)@,
                old(self).spec_capacity() as int,
                events@,
            ),
            final(self).written() == old(self).written().wrapping_add(written),
            final(self).failed() == old(self).failed(),
    {
        let written = self.ring_buffer.batch_write(events);
        self.written_count = self.written_count.wrapping_add(written);
        written
    }

    /// Takes the oldest event.
    pub fn try_read(&mut self) -> (event: Option<TimerEventData<E>>)
        requires
            old(self).wf(),
        ensures
            final(self).wf(),
            final(self).spec_capacity() == old(self).spec_capacity(),
            final(self).written() == old(self).written(),
            final(self).failed() == old(self).failed(),
            match event {
                Some(e) => {
                    &&& old(self)@.len() > 0
                    &&& e == old(self)@[0]
                    &&& final(self)@ == old(self)@.skip(1)
                },
                None => old(self)@.len() == 0 && final(self)@ == old(self)@,
            },
    {
        self.ring_buffer.try_read()
    }

    /// Takes up to `max_events` of the oldest events.
    pub fn batch_read(&mut self, max_events: usize) -> (events: Vec<TimerEventData<E>>)
        requires
            old(self).wf(),
        ensures
            final(self).wf(),
            final(self).spec_capacity() == old(self).spec_capacity(),
            final(self).written() == old(self).written(),
            final(self).failed() == old(self).failed(),
            events@ == old(self)@.take(lockfree_ring::smaller(max_events as int, old(self)@.len() as int)),
            final(self)@ == old(self)@.skip(events@.len() as int),
    {
        self.ring_buffer.batch_read(max_events)
    }

    /// Writes that went through, writes that did not, events held, and how many
    /// could be held.
    pub fn get_stats(&self) -> (stats: (usize, usize, usize, usize))
        ensures
            stats.0 == self.written(),
            stats.1 == self.failed(),
            stats.2 == self@.len(),
            stats.3 == self.spec_capacity(),
    {
        (
            self.written_count,
            self.failed_writes,
            self.ring_buffer.len(),
            self.ring_buffer.capacity(),
        )
    }
}

/// `slots` after `events` were written in portions of `size`, the first of them
/// to the slot `at` and each further one to the next slot round the ring. What
/// finds no room in its slot is dropped.
pub open spec fn spread<T>(
    slots: Seq<Seq<T>>,
    capacity: int,
    at: int,
    size: int,
    events: Seq<T>,
) -> Seq<Seq<T>>
    decreases events.len(),
{
    if events.len() == 0 || size <= 0 {
        slots
    } else {
        let portion = lockfree_ring::smaller(size, events.len() as int);
        spread(
            lockfree_ring::written_to(slots, capacity, at, events.take(portion)),
            capacity,
            lockfree_ring::nth(slots.len() as int, at, 1),
            size,
            events.skip(portion),
        )
    }
}

/// The first slot with room, beginning `d` places behind `at` and going on to
/// the end of one round.
pub open spec fn first_with_room<T>(
    slots: Seq<Seq<T>>,
    capacity: int,
    at: int,
    d: int,
) -> Option<int>
    decreases slots.len() - d,
{
    if d >= slots.len() {
        None
    } else {
        let i = lockfree_ring::nth(slots.len() as int, at, d);
        if slots[i].len() < capacity {
            Some(i)
        } else {
            first_with_room(slots, capacity, at, d + 1)
        }
    }
}

/// `slots` after `events` were written one by one, each to the first slot with
/// room behind the one that was written last. The first event that finds all
/// slots full ends this.
pub open spec fn placed_in_turn<T>(
    slots: Seq<Seq<T>>,
    capacity: int,
    at: int,
    events: Seq<T>,
) -> Seq<Seq<T>>
    decreases events.len(),
{
    if events.len() == 0 {
        slots
    } else {
        match first_with_room(slots, capacity, at, 0) {
            None => slots,
            Some(i) => placed_in_turn(
                slots.update(i, slots[i].push(events[0])),
                capacity,
                lockfree_ring::nth(slots.len() as int, i, 1),
                events.skip(1),
            ),
        }
    }
}

/// `slots` after a batch was given to them, with `best` as the least used slot.
/// A large batch gives two even shares to `best`, and one share to each further
/// slot; a small one goes round event by event.
pub open spec fn delivered<T>(
    slots: Seq<Seq<T>>,
    capacity: int,
    best: int,
    events: Seq<T>,
) -> Seq<Seq<T>> {
    if events.len() >= BATCH_THRESHOLD {
        let share = events.len() as int / slots.len() as int;
        let first = lockfree_ring::smaller(2 * share, events.len() as int);
        spread(
            lockfree_ring::written_to(slots, capacity, best, events.take(first)),
            capacity,
            lockfree_ring::nth(slots.len() as int, best, 1),
            if share > 0 {
                share
            } else {
                1
            },
            events.skip(first),
        )
    } else {
        placed_in_turn(slots, capacity, best, events)
    }
}

/// Whether `after` and `dispatched` are what comes of giving `events` to the
/// slots of `before`.
pub open spec fn dispatches<E>(
    before: DispatcherState<E>,
    events: Seq<TimerEventData<E>>,
    after: DispatcherState<E>,
    dispatched: usize,
) -> bool {
    if events.len() == 0 {
        dispatched == 0 && after == before
    } else {
        exists|best: int|
            {
                &&& 0 <= best < before.buffers.len()
                &&& #[trigger] lockfree_ring::least_used(
                    before.buffers,
                    before.index,
                    lockfree_ring::smaller(CHECKED_BUFFERS as int, before.buffers.len() as int)
                        - 1,
                    best,
                )
                &&& after == (DispatcherState {
                    buffers: delivered(before.buffers, before.capacity, best, events),
                    index: lockfree_ring::nth(before.buffers.len() as int, best, 1),
                    dispatched: before.dispatched.wrapping_add(dispatched),
                    rejected: before.rejected.wrapping_add((events.len() - dispatched) as usize),
                    ..before
                })
                &&& dispatched == lockfree_ring::total(after.buffers) - lockfree_ring::total(
                    before.buffers,
                )
            }
    }
}

/// The room that is left in all slots.
pub open spec fn room_left<T>(slots: Seq<Seq<T>>, capacity: int) -> int
    decreases slots.len(),
{
    if slots.len() == 0 {
        0
    } else {
        room_left(slots.drop_last(), capacity) + (capacity - slots.last().len())
    }
}

/// What a change of one slot does to the number of events and to the room.
proof fn lemma_one_slot<T>(slots: Seq<Seq<T>>, capacity: int, i: int, slot: Seq<T>)
    requires
        0 <= i < slots.len(),
    ensures
        lockfree_ring::total(slots.update(i, slot)) == lockfree_ring::total(slots)
            - slots[i].len() + slot.len(),
        room_left(slots.update(i, slot), capacity) == room_left(slots, capacity)
            + slots[i].len() - slot.len(),
    decreases slots.len(),
{
    let changed = slots.update(i, slot);
    if i == slots.len() - 1 {
        assert(changed.drop_last() =~= slots.drop_last());
    } else {
        assert(changed.drop_last() =~= slots.drop_last().update(i, slot));
        lemma_one_slot(slots.drop_last(), capacity, i, slot);
    }
}

/// Moves events into slots without copying them, and makes them from a pool.
#[verifier::reject_recursive_types(E)]
pub struct SmartZeroCopyDispatcher<E> {
    event_slots: Vec<EventSlot<E>>,
    batch_processor: OptimizedBatchProcessor<E>,
    dispatch_index: usize,
    slot_capacity: usize,
    total_dispatched: usize,
    total_rejected: usize,
}

/// The dispatcher's other name.
pub type ZeroCopyBatchDispatcher<E> = SmartZeroCopyDispatcher<E>;

impl<E> View for SmartZeroCopyDispatcher<E> {
    type V = DispatcherState<E>;

    closed spec fn view(&self) -> DispatcherState<E> {
        DispatcherState {
            buffers: self.event_slots@.map_values(|s: EventSlot<E>| s@),
            capacity: self.slot_capacity as int,
            index: self.dispatch_index as int,
            dispatched: self.total_dispatched,
            rejected: self.total_rejected,
        }
    }
}

impl<E: EventDataTrait> SmartZeroCopyDispatcher<E> {
    /// All slots are in order and of one size.
    pub closed spec fn wf(&self) -> bool {
        &&& self.slots_wf()
        &&& self.dispatch_index == 0 || self.dispatch_index < self.event_slots@.len()
    }

    spec fn slots_wf(&self) -> bool {
        forall|i: int|
            0 <= i < self.event_slots@.len() ==> (#[trigger] self.event_slots@[i]).wf()
                && self.event_slots@[i].spec_capacity() == self.slot_capacity
    }

    /// No slot is ever overfull, and the slot to start with is one of them.
    pub proof fn law_slots_stay_in_bounds(&self)
        requires
            self.wf(),
        ensures
            in_bounds(self@.buffers, self@.capacity),
            self@.buffers.len() > 0 ==> 0 <= self@.index < self@.buffers.len(),
    {
        assert forall|i: int| 0 <= i < self@.buffers.len() implies (
        #[trigger] self@.buffers[i]).len() <= self@.capacity by {
            assert(self.event_slots@[i].wf());
            self.event_slots@[i].law_slot_is_never_overfull();
        }
    }

    /// What makes the events.
    pub closed spec fn processor(&self) -> OptimizedBatchProcessor<E> {
        self.batch_processor
    }

    /// A dispatcher over `dispatcher_count` empty slots, with a pool of up to
    /// `pool_size` objects.
    pub fn new(slot_capacity: usize, dispatcher_count: usize, pool_size: usize) -> (dispatcher:
        Self)
        requires
            slot_capacity <= isize::MAX,
        ensures
            dispatcher.wf(),
            dispatcher@ == (DispatcherState {
                buffers: Seq::new(
                    dispatcher_count as nat,
                    |i: int| Seq::<TimerEventData<E>>::empty(),
                ),
                capacity: if slot_capacity == 0 {
                    1
                } else {
                    slot_capacity as int
                },
                index: 0,
                dispatched: 0,
                rejected: 0,
            }),
            dispatcher.processor().pool_config().max_size == pool_size,
            dispatcher.processor().pooled().len() == pool_size as int / 4,
            dispatcher.processor().threshold() == BATCH_THRESHOLD,
            dispatcher.processor().spec_counts() == (BatchCounts {
                processed: 0,
                small_batches: 0,
                large_batches: 0,
            }),
    {
        let mut event_slots: Vec<EventSlot<E>> = Vec::with_capacity(dispatcher_count);
        let actual: usize = if slot_capacity == 0 {
            1
        } else {
            slot_capacity
        };
        let mut i: usize = 0;
        while i < dispatcher_count
            invariant
                i <= dispatcher_count,
                slot_capacity <= isize::MAX,
                actual == (if slot_capacity == 0 {
                    1
                } else {
                    slot_capacity
                }),
                event_slots@.len() == i,
                forall|k: int|
                    0 <= k < i ==> (#[trigger] event_slots@[k]).wf()
                        && event_slots@[k].spec_capacity() == actual && event_slots@[k]@
                        == Seq::<TimerEventData<E>>::empty(),
            decreases dispatcher_count - i,
        {
            event_slots.push(EventSlot::new(slot_capacity));
            i = i + 1;
        }
        let dispatcher = SmartZeroCopyDispatcher {
            event_slots,
            batch_processor: OptimizedBatchProcessor::new(pool_size, BATCH_THRESHOLD),
            dispatch_index: 0,
            slot_capacity: actual,
            total_dispatched: 0,
            total_rejected: 0,
        };
        assert(dispatcher@.buffers =~= Seq::new(
            dispatcher_count as nat,
            |i: int| Seq::<TimerEventData<E>>::empty(),
        ));
        dispatcher
    }

    /// The slot behind `i` round the ring.
    fn next_slot(&self, i: usize) -> (next: usize)
        requires
            i < self.event_slots@.len(),
        ensures
            next < self.event_slots@.len(),
            next == lockfree_ring::nth(self@.buffers.len() as int, i as int, 1),
    {
        proof {
            vstd::arithmetic::div_mod::lemma_small_mod(i as nat, self@.buffers.len());
            lockfree_ring::lemma_nth_next(self@.buffers.len() as int, i as int, 0);
        }
        let count = self.event_slots.len();
        if i + 1 < count {
            i + 1
        } else {
            0
        }
    }

    /// The least used of the slot at the dispatch index and the few behind it.
    fn choose_slot(&self) -> (best: usize)
        requires
            self.wf(),
            self.event_slots@.len() > 0,
        ensures
            best < self.event_slots@.len(),
            lockfree_ring::least_used(
                self@.buffers,
                self@.index,
                lockfree_ring::smaller(CHECKED_BUFFERS as int, self@.buffers.len() as int) - 1,
                best as int,
            ),
    {
        let count = self.event_slots.len();
        let ghost n = count as int;
        let ghost start = self.dispatch_index as int;
        let ghost slots = self@.buffers;
        let mut best: usize = self.dispatch_index;
        let mut idx: usize = self.dispatch_index;
        let limit: usize = if count < CHECKED_BUFFERS {
            count
        } else {
            CHECKED_BUFFERS
        };
        let mut i: usize = 1;
        let ghost mut d: int = 0;
        proof {
            vstd::arithmetic::div_mod::lemma_small_mod(start as nat, n as nat);
            assert(lockfree_ring::nth(n, start, 0) == start);
        }
        while i < limit
            invariant
                self.wf(),
                n == count,
                count == self.event_slots@.len(),
                count > 0,
                slots == self@.buffers,
                start == self.dispatch_index,
                1 <= limit <= count,
                1 <= i <= limit,
                idx < count,
                best < count,
                idx == lockfree_ring::nth(n, start, i - 1),
                0 <= d < i,
                best == lockfree_ring::nth(n, start, d),
                forall|j: int|
                    0 <= j < i ==> slots[best as int].len()
                        <= slots[#[trigger] lockfree_ring::nth(n, start, j)].len(),
                forall|j: int|
                    0 <= j < d ==> slots[best as int].len()
                        < slots[#[trigger] lockfree_ring::nth(n, start, j)].len(),
            decreases limit - i,
        {
            proof {
                lockfree_ring::lemma_nth_next(n, start, i - 1);
            }
            idx = if idx + 1 < count {
                idx + 1
            } else {
                0
            };
            if self.event_slots[idx].get_stats().2 < self.event_slots[best].get_stats().2 {
                best = idx;
                proof {
                    d = i as int;
                }
            }
            i = i + 1;
        }
        assert(best == lockfree_ring::nth(n, start, d));
        best
    }

    /// Writes a portion to one slot, and says how many events found room.
    fn write_portion(&mut self, slot: usize, portion: Vec<TimerEventData<E>>) -> (written: usize)
        requires
            old(self).slots_wf(),
            slot < old(self).event_slots@.len(),
        ensures
            final(self).slots_wf(),
            final(self).event_slots@.len() == old(self).event_slots@.len(),
            final(self).batch_processor == old(self).batch_processor,
            final(self)@ == (DispatcherState {
                buffers: lockfree_ring::written_to(
                    old(self)@.buffers,
                    old(self)@.capacity,
                    slot as int,
                    portion@,
                ),
                ..old(self)@
            }),
            written <= portion@.len(),
            written == lockfree_ring::total(final(self)@.buffers) - lockfree_ring::total(
                old(self)@.buffers,
            ),
    {
        let ghost before = self@;
        let ghost all = portion@;
        proof {
            self.event_slots@[slot as int].law_slot_is_never_overfull();
        }
        let written = self.event_slots[slot].batch_write_events(portion);
        proof {
            let slots = before.buffers;
            let filled = slots[slot as int] + lockfree_ring::fitting(
                slots[slot as int],
                before.capacity,
                all,
            );
            assert(self@.buffers =~= slots.update(slot as int, filled));
            lemma_one_slot(slots, before.capacity, slot as int, filled);
        }
        written
    }

    /// Gives two even shares to `best`, and the rest to the other slots, share
    /// by share. Says how many events found room.
    fn dispatch_large_batch(&mut self, events: Vec<TimerEventData<E>>, best: usize) -> (dispatched:
        usize)
        requires
            old(self).slots_wf(),
            best < old(self).event_slots@.len(),
            events@.len() >= BATCH_THRESHOLD,
        ensures
            final(self).slots_wf(),
            final(self).event_slots@.len() == old(self).event_slots@.len(),
            final(self).batch_processor == old(self).batch_processor,
            final(self)@ == (DispatcherState {
                buffers: delivered(
                    old(self)@.buffers,
                    old(self)@.capacity,
                    best as int,
                    events@,
                ),
                ..old(self)@
            }),
            dispatched <= events@.len(),
            dispatched == lockfree_ring::total(final(self)@.buffers) - lockfree_ring::total(
                old(self)@.buffers,
            ),
    {
        let total = events.len();
        let ghost before = self@;
        let ghost all = events@;
        let count = self.event_slots.len();
        let share: usize = total / count;
        let size: usize = if share > 0 {
            share
        } else {
            1
        };
        let first: usize = if share > total / 2 {
            total
        } else {
            share * 2
        };
        let mut rest = events;
        let tail = rest.split_off(first);
        assert(rest@ =~= all.take(first as int));
        let mut dispatched: usize = self.write_portion(best, rest);
        let mut current = self.next_slot(best);
        let mut batch: Vec<TimerEventData<E>> = Vec::with_capacity(size);
        let ghost behind = all.skip(first as int);
        let ghost middle = self@.buffers;
        let ghost second = current as int;
        assert(tail@ =~= behind);
        assert(batch@ + behind.skip(0) =~= behind);
        for event in iter: tail
            invariant
                iter.seq() == behind,
                behind == all.skip(first as int),
                first <= all.len(),
                all.len() == total,
                self.slots_wf(),
                self.batch_processor == old(self).batch_processor,
                self@ == (DispatcherState { buffers: self@.buffers, ..before }),
                size > 0,
                current < self.event_slots@.len(),
                self.event_slots@.len() == count,
                count == old(self).event_slots@.len(),
                batch@.len() < size,
                batch@.len() <= iter.index(),
                dispatched <= first + iter.index() - batch@.len(),
                dispatched == lockfree_ring::total(self@.buffers) - lockfree_ring::total(
                    before.buffers,
                ),
                spread(middle, before.capacity, second, size as int, behind) == spread(
                    self@.buffers,
                    before.capacity,
                    current as int,
                    size as int,
                    batch@ + behind.skip(iter.index()),
                ),
        {
            let ghost done = iter.index();
            let ghost held = batch@;
            let ghost waiting = held + behind.skip(done);
            batch.push(event);
            assert(batch@ + behind.skip(done + 1) =~= waiting);
            if batch.len() >= size {
                proof {
                    assert(waiting.take(size as int) =~= batch@);
                    assert(waiting.skip(size as int) =~= Seq::<TimerEventData<E>>::empty()
                        + behind.skip(done + 1));
                }
                let written = self.write_portion(current, batch);
                dispatched = dispatched + written;
                batch = Vec::with_capacity(size);
                current = self.next_slot(current);
            }
        }
        proof {
            reveal_with_fuel(spread, 2);
            assert(batch@ + behind.skip(behind.len() as int) =~= batch@);
            assert(batch@.take(batch@.len() as int) =~= batch@);
        }
        if batch.len() > 0 {
            let written = self.write_portion(current, batch);
            dispatched = dispatched + written;
        }
        dispatched
    }

    /// Gives the events to the slots in turn, each to the first slot with room,
    /// until one finds none. Says how many found room.
    fn dispatch_small_batch(&mut self, events: Vec<TimerEventData<E>>, best: usize) -> (dispatched:
        usize)
        requires
            old(self).slots_wf(),
            best < old(self).event_slots@.len(),
        ensures
            final(self).slots_wf(),
            final(self).event_slots@.len() == old(self).event_slots@.len(),
            final(self).batch_processor == old(self).batch_processor,
            final(self)@ == (DispatcherState {
                buffers: placed_in_turn(
                    old(self)@.buffers,
                    old(self)@.capacity,
                    best as int,
                    events@,
                ),
                ..old(self)@
            }),
            dispatched <= events@.len(),
            dispatched == lockfree_ring::total(final(self)@.buffers) - lockfree_ring::total(
                old(self)@.buffers,
            ),
    {
        let ghost before = self@;
        let ghost all = events@;
        let total = events.len();
        let mut dispatched: usize = 0;
        let mut current: usize = best;
        let mut full = false;
        assert(all.skip(0) =~= all);
        for event in iter: events
            invariant
                iter.seq() == all,
                all.len() == total,
                self.slots_wf(),
                self.event_slots@.len() == old(self).event_slots@.len(),
                self.batch_processor == old(self).batch_processor,
                self@ == (DispatcherState { buffers: self@.buffers, ..before }),
                current < self.event_slots@.len(),
                dispatched <= iter.index(),
                dispatched == lockfree_ring::total(self@.buffers) - lockfree_ring::total(
                    before.buffers,
                ),
                full ==> self@.buffers == placed_in_turn(
                    before.buffers,
                    before.capacity,
                    best as int,
                    all,
                ),
                !full ==> placed_in_turn(before.buffers, before.capacity, best as int, all)
                    == placed_in_turn(
                    self@.buffers,
                    before.capacity,
                    current as int,
                    all.skip(iter.index()),
                ),
        {
            let ghost done = iter.index();
            if !full {
                let ghost slots = self@.buffers;
                let ghost left = all.skip(done);
                assert(left[0] == event);
                assert(left.skip(1) =~= all.skip(done + 1));
                match self.place(event, current) {
                    Some(slot) => {
                        current = self.next_slot(slot);
                        dispatched = dispatched + 1;
                    },
                    None => {
                        full = true;
                    },
                }
            }
        }
        assert(all.skip(all.len() as int).len() == 0);
        dispatched
    }

    /// Writes one event to the first slot with room from `start` on, and says to
    /// which. An event for which there is no room is dropped.
    fn place(&mut self, event: TimerEventData<E>, start: usize) -> (slot: Option<usize>)
        requires
            old(self).slots_wf(),
            start < old(self).event_slots@.len(),
        ensures
            final(self).slots_wf(),
            final(self).batch_processor == old(self).batch_processor,
            final(self).event_slots@.len() == old(self).event_slots@.len(),
            match (slot, first_with_room(
                old(self)@.buffers,
                old(self)@.capacity,
                start as int,
                0,
            )) {
                (Some(i), Some(k)) => {
                    &&& i == k
                    &&& i < old(self).event_slots@.len()
                    &&& final(self)@ == (DispatcherState {
                        buffers: old(self)@.buffers.update(k, old(self)@.buffers[k].push(event)),
                        ..old(self)@
                    })
                    &&& lockfree_ring::total(final(self)@.buffers) == lockfree_ring::total(
                        old(self)@.buffers,
                    ) + 1
                },
                (None, None) => final(self)@ == old(self)@,
                _ => false,
            },
    {
        let ghost before = self@;
        let ghost n = self.event_slots@.len() as int;
        let count = self.event_slots.len();
        let mut pending = event;
        let mut current: usize = start;
        let mut tried: usize = 0;
        proof {
            vstd::arithmetic::div_mod::lemma_small_mod(start as nat, n as nat);
        }
        while tried < count
            invariant
                self.slots_wf(),
                self.batch_processor == old(self).batch_processor,
                self@ == before,
                before == old(self)@,
                n == count,
                count == self.event_slots@.len(),
                start < count,
                tried <= count,
                current < count,
                current == lockfree_ring::nth(n, start as int, tried as int),
                pending == event,
                first_with_room(before.buffers, before.capacity, start as int, 0)
                    == first_with_room(
                    before.buffers,
                    before.capacity,
                    start as int,
                    tried as int,
                ),
            decreases count - tried,
        {
            proof {
                self.event_slots@[current as int].law_slot_is_never_overfull();
                lockfree_ring::lemma_nth_next(n, start as int, tried as int);
            }
            match self.event_slots[current].try_write_event(pending) {
                Ok(_) => {
                    proof {
                        let i = current as int;
                        let filled = before.buffers[i].push(event);
                        assert(self@.buffers =~= before.buffers.update(i, filled));
                        lemma_one_slot(before.buffers, before.capacity, i, filled);
                        assert(first_with_room(
                            before.buffers,
                            before.capacity,
                            start as int,
                            tried as int,
                        ) == Some(i));
                    }
                    return Some(current);
                },
                Err(returned) => {
                    assert(self@.buffers =~= before.buffers);
                    pending = returned;
                },
            }
            current = if current + 1 < count {
                current + 1
            } else {
                0
            };
            tried = tried + 1;
        }
        None
    }

    /// Gives a batch to the slots, and says how many events found room; the
    /// rest is dropped.
    pub fn batch_dispatch_events(&mut self, events: Vec<TimerEventData<E>>) -> (dispatched: usize)
        requires
            old(self).wf(),
            events@.len() > 0 ==> old(self)@.buffers.len() > 0,
        ensures
            final(self).wf(),
            dispatches(old(self)@, events@, final(self)@, dispatched),
            dispatched <= events@.len(),
            final(self)@.buffers.len() == old(self)@.buffers.len(),
            final(self).processor() == old(self).processor(),
    {
        if events.len() == 0 {
            return 0;
        }
        let events_len = events.len();
        let best = self.choose_slot();
        let dispatched = if events_len >= BATCH_THRESHOLD {
            self.dispatch_large_batch(events, best)
        } else {
            self.dispatch_small_batch(events, best)
        };
        self.total_dispatched = self.total_dispatched.wrapping_add(dispatched);
        self.total_rejected = self.total_rejected.wrapping_add(events_len - dispatched);
        self.dispatch_index = self.next_slot(best);
        dispatched
    }

    /// Makes an event for each request and gives them to the slots; says how
    /// many found room. Only a long list of requests is made from the pool.
    pub fn create_and_dispatch_events(&mut self, requests: &[(ConnectionId, E)]) -> (dispatched:
        usize)
        requires
            old(self).wf(),
            requests@.len() > 0 ==> old(self)@.buffers.len() > 0,
        ensures
            final(self).wf(),
            dispatched <= requests@.len(),
            final(self)@.buffers.len() == old(self)@.buffers.len(),
            exists|events: Seq<TimerEventData<E>>|
                {
                    &&& #[trigger] crate::timer::event::traits::made_from(events, requests@)
                    &&& dispatches(old(self)@, events, final(self)@, dispatched)
                },
            final(self).processor().pool_config() == old(self).processor().pool_config(),
            final(self).processor().pooled() == (if requests@.len() <= DIRECT_CREATION_LIMIT {
                old(self).processor().pooled()
            } else {
                old(self).processor().pooled().skip(
                    lockfree_ring::smaller(
                        requests@.len() as int,
                        old(self).processor().pooled().len() as int,
                    ),
                )
            }),
            final(self).processor().threshold() == old(self).processor().threshold(),
            final(self).processor().spec_counts() == (if requests@.len() <= DIRECT_CREATION_LIMIT {
                old(self).processor().spec_counts()
            } else {
                memory_pool::counted(
                    old(self).processor().spec_counts(),
                    old(self).processor().threshold(),
                    requests@.len() as usize,
                )
            }),
    {
        if requests.len() == 0 {
            assert(crate::timer::event::traits::made_from(
                Seq::<TimerEventData<E>>::empty(),
                requests@,
            ));
            return 0;
        }
        if requests.len() <= DIRECT_CREATION_LIMIT {
            let events = clone_requests(requests);
            return self.batch_dispatch_events(events);
        }
        let events = self.batch_processor.create_events_optimized(requests);
        self.batch_dispatch_events(events)
    }

    /// Takes up to `max_events_per_slot` events from each slot.
    pub fn batch_consume_events(&mut self, max_events_per_slot: usize) -> (events: Vec<
        TimerEventData<E>,
    >)
        requires
            old(self).wf(),
        ensures
            final(self).wf(),
            events@ == lockfree_ring::heads(old(self)@.buffers, max_events_per_slot as int),
            final(self)@ == (DispatcherState {
                buffers: lockfree_ring::tails(old(self)@.buffers, max_events_per_slot as int),
                ..old(self)@
            }),
            final(self).processor() == old(self).processor(),
    {
        let ghost before = self@;
        let ghost max = max_events_per_slot as int;
        let mut all_events: Vec<TimerEventData<E>> = Vec::new();
        let mut i: usize = 0;
        while i < self.event_slots.len()
            invariant
                self.wf(),
                self.batch_processor == old(self).batch_processor,
                i <= self.event_slots@.len(),
                self.event_slots@.len() == before.buffers.len(),
                max == max_events_per_slot,
                self@ == (DispatcherState { buffers: self@.buffers, ..before }),
                all_events@ == lockfree_ring::heads(before.buffers.take(i as int), max),
                forall|k: int|
                    0 <= k < i ==> #[trigger] self.event_slots@[k]@ == lockfree_ring::tails(
                        before.buffers,
                        max,
                    )[k],
                forall|k: int|
                    i <= k < before.buffers.len() ==> #[trigger] self.event_slots@[k]@
                        == before.buffers[k],
            decreases self.event_slots@.len() - i,
        {
            let mut events = self.event_slots[i].batch_read(max_events_per_slot);
            all_events.append(&mut events);
            assert(before.buffers.take(i + 1).drop_last() =~= before.buffers.take(i as int));
            i = i + 1;
        }
        assert(before.buffers.take(before.buffers.len() as int) =~= before.buffers);
        assert(self@.buffers =~= lockfree_ring::tails(before.buffers, max));
        all_events
    }

    /// Gives events back to the pool, as many as it has room for.
    pub fn batch_return_to_pool(&mut self, events: Vec<TimerEventData<E>>)
        requires
            old(self).wf(),
        ensures
            final(self).wf(),
            final(self)@ == old(self)@,
            final(self).processor().pool_config() == old(self).processor().pool_config(),
            final(self).processor().pooled() == old(self).processor().pooled() + events@.take(
                crate::timer::event::pool::room_for(
                    old(self).processor().pooled().len() as int,
                    old(self).processor().pool_config().max_size as int,
                    events@.len() as int,
                ),
            ),
            final(self).processor().threshold() == old(self).processor().threshold(),
            final(self).processor().spec_counts() == old(self).processor().spec_counts(),
    {
        self.batch_processor.process_completed(events);
    }

    /// The part that makes events and recycles them.
    pub fn batch_processor(&self) -> (processor: &OptimizedBatchProcessor<E>)
        ensures
            *processor == self.processor(),
    {
        &self.batch_processor
    }

    /// The events that found room, those that did not, the lengths of the slots,
    /// and how much each slot can hold.
    pub fn get_stats(&self) -> (stats: (usize, usize, Vec<usize>, usize))
        requires
            self.wf(),
        ensures
            stats.0 == self@.dispatched,
            stats.1 == self@.rejected,
            stats.2@ == Seq::new(self@.buffers.len(), |i: int| self@.buffers[i].len() as usize),
            stats.3 == self@.capacity,
    {
        let mut lengths: Vec<usize> = Vec::new();
        let mut i: usize = 0;
        while i < self.event_slots.len()
            invariant
                i <= self.event_slots@.len(),
                lengths@ == Seq::new(i as nat, |k: int| self@.buffers[k].len() as usize),
            decreases self.event_slots@.len() - i,
        {
            lengths.push(self.event_slots[i].get_stats().2);
            assert(lengths@ =~= Seq::new((i + 1) as nat, |k: int| self@.buffers[k].len() as usize));
            i = i + 1;
        }
        (self.total_dispatched, self.total_rejected, lengths, self.slot_capacity)
    }
}

/// Whether `after` is `before` with events of `events` added at the ends of
/// slots, and no slot overfull.
pub open spec fn only_added<T>(
    before: Seq<Seq<T>>,
    after: Seq<Seq<T>>,
    capacity: int,
    events: Seq<T>,
) -> bool {
    &&& after.len() == before.len()
    &&& forall|i: int|
        0 <= i < before.len() ==> before[i].is_prefix_of(#[trigger] after[i]) && after[i].len()
            <= capacity
    &&& forall|i: int, k: int|
        0 <= i < before.len() && before[i].len() <= k < after[i].len() ==> events.contains(
            #[trigger] after[i][k],
        )
}

/// No slot holds more than its capacity.
pub open spec fn in_bounds<T>(slots: Seq<Seq<T>>, capacity: int) -> bool {
    forall|i: int| 0 <= i < slots.len() ==> (#[trigger] slots[i]).len() <= capacity
}

proof fn lemma_written_adds<T>(slots: Seq<Seq<T>>, capacity: int, at: int, events: Seq<T>)
    requires
        in_bounds(slots, capacity),
        0 <= at < slots.len(),
    ensures
        only_added(
            slots,
            lockfree_ring::written_to(slots, capacity, at, events),
            capacity,
            events,
        ),
{
    let after = lockfree_ring::written_to(slots, capacity, at, events);
    assert forall|i: int, k: int|
        0 <= i < slots.len() && slots[i].len() <= k < after[i].len() implies events.contains(
        #[trigger] after[i][k],
    ) by {
        assert(i == at);
        assert(after[i][k] == events[k - slots[i].len()]);
    }
}

proof fn lemma_added_twice<T>(
    first: Seq<Seq<T>>,
    second: Seq<Seq<T>>,
    third: Seq<Seq<T>>,
    capacity: int,
    a: Seq<T>,
    b: Seq<T>,
    events: Seq<T>,
)
    requires
        only_added(first, second, capacity, a),
        only_added(second, third, capacity, b),
        forall|x: T| #[trigger] a.contains(x) ==> events.contains(x),
        forall|x: T| #[trigger] b.contains(x) ==> events.contains(x),
    ensures
        only_added(first, third, capacity, events),
{
    assert forall|i: int| 0 <= i < first.len() implies first[i].is_prefix_of(#[trigger] third[i])
        && third[i].len() <= capacity by {
        assert(first[i].is_prefix_of(second[i]));
        assert(second[i].is_prefix_of(third[i]));
        assert(third[i].take(first[i].len() as int) =~= second[i].take(first[i].len() as int));
    }
    assert forall|i: int, k: int|
        0 <= i < first.len() && first[i].len() <= k < third[i].len() implies events.contains(
        #[trigger] third[i][k],
    ) by {
        assert(second[i].is_prefix_of(third[i]));
        if k < second[i].len() {
            assert(third[i][k] == second[i][k]);
            assert(a.contains(second[i][k]));
        } else {
            assert(b.contains(third[i][k]));
        }
    }
}

pub(crate) proof fn lemma_spread_adds<T>(
    slots: Seq<Seq<T>>,
    capacity: int,
    at: int,
    size: int,
    events: Seq<T>,
)
    requires
        in_bounds(slots, capacity),
        0 <= at < slots.len(),
    ensures
        only_added(slots, spread(slots, capacity, at, size, events), capacity, events),
    decreases events.len(),
{
    if events.len() == 0 || size <= 0 {
    } else {
        let portion = lockfree_ring::smaller(size, events.len() as int);
        let head = events.take(portion);
        let tail = events.skip(portion);
        let next = lockfree_ring::nth(slots.len() as int, at, 1);
        let middle = lockfree_ring::written_to(slots, capacity, at, head);
        lockfree_ring::lemma_nth_next(slots.len() as int, at, 1);
        lemma_written_adds(slots, capacity, at, head);
        lemma_spread_adds(middle, capacity, next, size, tail);
        assert forall|x: T| #[trigger] head.contains(x) implies events.contains(x) by {
            let i = choose|i: int| 0 <= i < head.len() && head[i] == x;
            assert(events[i] == x);
        }
        assert forall|x: T| #[trigger] tail.contains(x) implies events.contains(x) by {
            let i = choose|i: int| 0 <= i < tail.len() && tail[i] == x;
            assert(events[i + portion] == x);
        }
        lemma_added_twice(
            slots,
            middle,
            spread(middle, capacity, next, size, tail),
            capacity,
            head,
            tail,
            events,
        );
    }
}

/// Where the first slot with room is found.
proof fn lemma_first_with_room<T>(slots: Seq<Seq<T>>, capacity: int, at: int, d: int)
    requires
        0 <= at < slots.len(),
        0 <= d,
    ensures
        match first_with_room(slots, capacity, at, d) {
            Some(i) => 0 <= i < slots.len() && slots[i].len() < capacity,
            None => forall|j: int|
                d <= j < slots.len() ==> slots[#[trigger] lockfree_ring::nth(
                    slots.len() as int,
                    at,
                    j,
                )].len() >= capacity,
        },
    decreases slots.len() - d,
{
    if d < slots.len() {
        lockfree_ring::lemma_nth_next(slots.len() as int, at, d);
        lemma_first_with_room(slots, capacity, at, d + 1);
    }
}

pub(crate) proof fn lemma_placed_adds<T>(slots: Seq<Seq<T>>, capacity: int, at: int, events: Seq<T>)
    requires
        in_bounds(slots, capacity),
        0 <= at < slots.len(),
    ensures
        only_added(slots, placed_in_turn(slots, capacity, at, events), capacity, events),
    decreases events.len(),
{
    lemma_first_with_room(slots, capacity, at, 0);
    if events.len() > 0 && first_with_room(slots, capacity, at, 0) is Some {
        let i = first_with_room(slots, capacity, at, 0)->0;
        let head = seq![events[0]];
        let tail = events.skip(1);
        let next = lockfree_ring::nth(slots.len() as int, i, 1);
        let middle = slots.update(i, slots[i].push(events[0]));
        lockfree_ring::lemma_nth_next(slots.len() as int, i, 1);
        assert(slots[i].is_prefix_of(middle[i]));
        assert(head.contains(events[0])) by {
            assert(head[0] == events[0]);
        }
        lemma_placed_adds(middle, capacity, next, tail);
        assert forall|x: T| #[trigger] head.contains(x) implies events.contains(x) by {
            assert(events[0] == x);
        }
        assert forall|x: T| #[trigger] tail.contains(x) implies events.contains(x) by {
            let k = choose|k: int| 0 <= k < tail.len() && tail[k] == x;
            assert(events[k + 1] == x);
        }
        lemma_added_twice(
            slots,
            middle,
            placed_in_turn(middle, capacity, next, tail),
            capacity,
            head,
            tail,
            events,
        );
    }
}

/// Whatever the size of a batch, its delivery adds events of the batch at the
/// ends of slots and does nothing else: no event is lost from a slot, none is
/// made up, and no slot is overfull.
pub proof fn law_delivery_only_adds<T>(
    slots: Seq<Seq<T>>,
    capacity: int,
    best: int,
    events: Seq<T>,
)
    requires
        in_bounds(slots, capacity),
        0 <= best < slots.len(),
    ensures
        only_added(slots, delivered(slots, capacity, best, events), capacity, events),
{
    if events.len() >= BATCH_THRESHOLD {
        let share = events.len() as int / slots.len() as int;
        let size = if share > 0 {
            share
        } else {
            1
        };
        let first = lockfree_ring::smaller(2 * share, events.len() as int);
        assert(share >= 0) by {
            vstd::arithmetic::div_mod::lemma_div_pos_is_pos(
                events.len() as int,
                slots.len() as int,
            );
        }
        let head = events.take(first);
        let tail = events.skip(first);
        let next = lockfree_ring::nth(slots.len() as int, best, 1);
        let middle = lockfree_ring::written_to(slots, capacity, best, head);
        lockfree_ring::lemma_nth_next(slots.len() as int, best, 1);
        lemma_written_adds(slots, capacity, best, head);
        lemma_spread_adds(middle, capacity, next, size, tail);
        assert forall|x: T| #[trigger] head.contains(x) implies events.contains(x) by {
            let i = choose|i: int| 0 <= i < head.len() && head[i] == x;
            assert(events[i] == x);
        }
        assert forall|x: T| #[trigger] tail.contains(x) implies events.contains(x) by {
            let i = choose|i: int| 0 <= i < tail.len() && tail[i] == x;
            assert(events[i + first] == x);
        }
        lemma_added_twice(
            slots,
            middle,
            spread(middle, capacity, next, size, tail),
            capacity,
            head,
            tail,
            events,
        );
    } else {
        lemma_placed_adds(slots, capacity, best, events);
    }
}

/// There is room exactly where not all slots are full.
proof fn lemma_room_left<T>(slots: Seq<Seq<T>>, capacity: int)
    requires
        in_bounds(slots, capacity),
    ensures
        room_left(slots, capacity) >= 0,
        forall|i: int|
            0 <= i < slots.len() ==> capacity - (#[trigger] slots[i]).len() <= room_left(
                slots,
                capacity,
            ),
        (forall|i: int| 0 <= i < slots.len() ==> (#[trigger] slots[i]).len() == capacity)
            ==> room_left(slots, capacity) == 0,
    decreases slots.len(),
{
    if slots.len() > 0 {
        let front = slots.drop_last();
        assert forall|i: int| 0 <= i < front.len() implies (#[trigger] front[i]).len()
            <= capacity by {
            assert(front[i] == slots[i]);
        }
        lemma_room_left(front, capacity);
        assert forall|i: int| 0 <= i < slots.len() implies capacity - (#[trigger] slots[i]).len()
            <= room_left(slots, capacity) by {
            if i < front.len() {
                assert(front[i] == slots[i]);
            }
        }
    }
}

/// A small batch loses an event only when all slots are full.
pub proof fn law_small_batch_uses_all_room<T>(
    slots: Seq<Seq<T>>,
    capacity: int,
    best: int,
    events: Seq<T>,
)
    requires
        in_bounds(slots, capacity),
        0 <= best < slots.len(),
        events.len() < BATCH_THRESHOLD,
    ensures
        lockfree_ring::total(delivered(slots, capacity, best, events)) == lockfree_ring::total(
            slots,
        ) + lockfree_ring::smaller(events.len() as int, room_left(slots, capacity)),
{
    lemma_placed_fills(slots, capacity, best, events);
}

proof fn lemma_placed_fills<T>(slots: Seq<Seq<T>>, capacity: int, at: int, events: Seq<T>)
    requires
        in_bounds(slots, capacity),
        0 <= at < slots.len(),
    ensures
        lockfree_ring::total(placed_in_turn(slots, capacity, at, events))
            == lockfree_ring::total(slots) + lockfree_ring::smaller(
            events.len() as int,
            room_left(slots, capacity),
        ),
    decreases events.len(),
{
    lemma_room_left(slots, capacity);
    lemma_first_with_room(slots, capacity, at, 0);
    if events.len() > 0 {
        match first_with_room(slots, capacity, at, 0) {
            None => {
                let n = slots.len() as int;
                assert forall|i: int| 0 <= i < n implies (#[trigger] slots[i]).len()
                    == capacity by {
                    let j = (i - at) % n;
                    vstd::arithmetic::div_mod::lemma_mod_bound(i - at, n);
                    vstd::arithmetic::div_mod::lemma_add_mod_noop_right(at, i - at, n);
                    vstd::arithmetic::div_mod::lemma_small_mod(i as nat, n as nat);
                    assert(lockfree_ring::nth(n, at, j) == i);
                }
            },
            Some(i) => {
                let filled = slots[i].push(events[0]);
                lemma_one_slot(slots, capacity, i, filled);
                lockfree_ring::lemma_nth_next(slots.len() as int, i, 1);
                lemma_placed_fills(
                    slots.update(i, filled),
                    capacity,
                    lockfree_ring::nth(slots.len() as int, i, 1),
                    events.skip(1),
                );
            },
        }
    }
}

} // verus!
