//! What buffers, pools, dispatchers and factories do with events, stated of their
//! functions one by one and of several calls in a row.

use vstd::multiset::Multiset;
use vstd::prelude::*;

use crate::timer::event::lockfree_ring;
use crate::timer::event::lockfree_ring::{
    DispatcherState, OptimizedZeroCopyDispatcher, RingBuffer,
};
use crate::timer::event::memory_pool::{BatchCounts, OptimizedBatchProcessor};
use crate::timer::event::performance_bench::BenchConfig;
use crate::timer::event::pool::{PoolConfig, PoolStats, TimerEventPool};
use crate::timer::event::pool_manager::PoolManager;
use crate::timer::event::traits;
use crate::timer::event::traits::{
    is_copy_like_type, should_pool_type, CloneStrategy, CopyStrategy, EventCreationStrategy,
    EventDataTrait, EventFactory,
};
use crate::timer::event::zero_copy;
use crate::timer::event::zero_copy::{
    EventSlot, RefEventHandler, SmartZeroCopyDispatcher, ZeroCopyEventDelivery,
};
use crate::timer::event::{ConnectionId, TimeoutEvent, TimerEvent, TimerEventData, TimerEventId};

verus! {

/// A new buffer is empty and has the capacity asked for, and room for one event at
/// least.
pub proof fn law_buffer_starts_empty<E>(capacity: usize, buffer: RingBuffer<E>)
    requires
        call_ensures(RingBuffer::<E>::new, (capacity,), buffer),
    ensures
        buffer@.len() == 0,
        capacity > 0 ==> buffer.spec_capacity() == capacity,
        capacity == 0 ==> buffer.spec_capacity() == 1,
{
}

/// A written event goes behind all that the buffer holds, as long as there is room;
/// a full buffer hands the event back and keeps what it has.
pub proof fn law_buffer_takes_an_event_at_its_end<E>(
    buffer: &mut RingBuffer<E>,
    event: TimerEventData<E>,
    result: Result<(), TimerEventData<E>>,
)
    requires
        old(buffer).wf(),
        call_ensures(RingBuffer::<E>::try_write, (buffer, event), result),
    ensures
        old(buffer)@.len() < old(buffer).spec_capacity() ==> {
            &&& result is Ok
            &&& final(buffer)@.len() == old(buffer)@.len() + 1
            &&& final(buffer)@.last() == event
            &&& final(buffer)@.drop_last() == old(buffer)@
        },
        old(buffer)@.len() >= old(buffer).spec_capacity() ==> {
            &&& result == Err::<(), TimerEventData<E>>(event)
            &&& final(buffer)@ == old(buffer)@
        },
        final(buffer).spec_capacity() == old(buffer).spec_capacity(),
{
    old(buffer).law_never_overfull();
    assert(old(buffer)@.push(event).drop_last() =~= old(buffer)@);
}

/// A read takes the event that has been in the buffer for the longest time.
pub proof fn law_buffer_gives_its_oldest_event<E>(
    buffer: &mut RingBuffer<E>,
    event: Option<TimerEventData<E>>,
)
    requires
        old(buffer).wf(),
        call_ensures(RingBuffer::<E>::try_read, (buffer,), event),
    ensures
        event is None <==> old(buffer)@.len() == 0,
        event is None ==> final(buffer)@ == old(buffer)@,
        event matches Some(e) ==> {
            &&& e == old(buffer)@[0]
            &&& final(buffer)@.len() == old(buffer)@.len() - 1
            &&& forall|i: int|
                0 <= i < final(buffer)@.len() ==> #[trigger] final(buffer)@[i] == old(
                    buffer)@[i + 1]
        },
        final(buffer).spec_capacity() == old(buffer).spec_capacity(),
{
}

/// Of a batch, the events go behind all that the buffer holds, in their order and
/// until there is no room left.
pub proof fn law_buffer_takes_a_batch_in_order<E>(
    buffer: &mut RingBuffer<E>,
    events: Vec<TimerEventData<E>>,
    written: usize,
)
    requires
        old(buffer).wf(),
        call_ensures(RingBuffer::<E>::batch_write, (buffer, events), written),
    ensures
        written <= events@.len(),
        written == events@.len() || final(buffer)@.len() == old(buffer).spec_capacity(),
        final(buffer)@.len() == old(buffer)@.len() + written,
        final(buffer)@.len() <= old(buffer).spec_capacity(),
        forall|i: int|
            0 <= i < old(buffer)@.len() ==> #[trigger] final(buffer)@[i] == old(buffer)@[i],
        forall|i: int|
            0 <= i < written ==> final(buffer)@[old(buffer)@.len() + i] == #[trigger] events@[i],
        final(buffer).spec_capacity() == old(buffer).spec_capacity(),
{
    old(buffer).law_never_overfull();
}

/// A batch that is read holds the oldest events in their order, as many as were
/// asked for or as there are; the others stay.
pub proof fn law_buffer_gives_a_batch_in_order<E>(
    buffer: &mut RingBuffer<E>,
    max_events: usize,
    events: Vec<TimerEventData<E>>,
)
    requires
        old(buffer).wf(),
        call_ensures(RingBuffer::<E>::batch_read, (buffer, max_events), events),
    ensures
        events@.len() <= max_events,
        events@.len() == max_events || final(buffer)@.len() == 0,
        events@ + final(buffer)@ == old(buffer)@,
        final(buffer).spec_capacity() == old(buffer).spec_capacity(),
{
}

/// What is written to an empty buffer and then read is the same events in the same
/// order, as far as they found room.
pub proof fn law_buffer_gives_back_what_it_took<E>(
    buffer: &mut RingBuffer<E>,
    events: Vec<TimerEventData<E>>,
    written: usize,
    later: &mut RingBuffer<E>,
    max_events: usize,
    given: Vec<TimerEventData<E>>,
)
    requires
        old(buffer).wf(),
        old(buffer)@.len() == 0,
        call_ensures(RingBuffer::<E>::batch_write, (buffer, events), written),
        *old(later) == *final(buffer),
        call_ensures(RingBuffer::<E>::batch_read, (later, max_events), given),
        max_events >= events@.len(),
    ensures
        given@.is_prefix_of(events@),
        events@.len() <= old(buffer).spec_capacity() ==> given@ == events@,
        final(later)@.len() == 0,
{
    old(buffer).law_never_overfull();
    assert(old(buffer)@ + events@.take(written as int) =~= events@.take(written as int));
    assert(given@ =~= events@.take(written as int));
}

/// A new slot is empty and has the capacity asked for, and room for one event at
/// least.
pub proof fn law_slot_starts_empty<E>(capacity: usize, slot: EventSlot<E>)
    requires
        call_ensures(EventSlot::<E>::new, (capacity,), slot),
    ensures
        slot@.len() == 0,
        capacity > 0 ==> slot.spec_capacity() == capacity,
        capacity == 0 ==> slot.spec_capacity() == 1,
{
}

/// A written event goes behind all that the slot holds, as long as there is room;
/// a full slot hands the event back and keeps what it has.
pub proof fn law_slot_takes_an_event_at_its_end<E>(
    slot: &mut EventSlot<E>,
    event: TimerEventData<E>,
    result: Result<(), TimerEventData<E>>,
)
    requires
        old(slot).wf(),
        call_ensures(EventSlot::<E>::try_write_event, (slot, event), result),
    ensures
        old(slot)@.len() < old(slot).spec_capacity() ==> {
            &&& result is Ok
            &&& final(slot)@.len() == old(slot)@.len() + 1
            &&& final(slot)@.last() == event
            &&& final(slot)@.drop_last() == old(slot)@
            &&& old(slot).written() < usize::MAX ==> final(slot).written() == old(
                slot).written() + 1
            &&& final(slot).failed() == old(slot).failed()
        },
        old(slot)@.len() >= old(slot).spec_capacity() ==> {
            &&& result == Err::<(), TimerEventData<E>>(event)
            &&& final(slot)@ == old(slot)@
            &&& final(slot).written() == old(slot).written()
            &&& old(slot).failed() < usize::MAX ==> final(slot).failed() == old(
                slot).failed() + 1
        },
        final(slot).spec_capacity() == old(slot).spec_capacity(),
{
    old(slot).law_slot_is_never_overfull();
    assert(old(slot)@.push(event).drop_last() =~= old(slot)@);
}

/// A read takes the event that has been in the slot for the longest time.
pub proof fn law_slot_gives_its_oldest_event<E>(
    slot: &mut EventSlot<E>,
    event: Option<TimerEventData<E>>,
)
    requires
        old(slot).wf(),
        call_ensures(EventSlot::<E>::try_read, (slot,), event),
    ensures
        event is None <==> old(slot)@.len() == 0,
        event is None ==> final(slot)@ == old(slot)@,
        event matches Some(e) ==> {
            &&& e == old(slot)@[0]
            &&& final(slot)@.len() == old(slot)@.len() - 1
            &&& forall|i: int|
                0 <= i < final(slot)@.len() ==> #[trigger] final(slot)@[i] == old(
                    slot)@[i + 1]
        },
        final(slot).spec_capacity() == old(slot).spec_capacity(),
        final(slot).written() == old(slot).written(),
        final(slot).failed() == old(slot).failed(),
{
}

/// Of a batch, the events go behind all that the slot holds, in their order and
/// until there is no room left.
pub proof fn law_slot_takes_a_batch_in_order<E>(
    slot: &mut EventSlot<E>,
    events: Vec<TimerEventData<E>>,
    written: usize,
)
    requires
        old(slot).wf(),
        call_ensures(EventSlot::<E>::batch_write_events, (slot, events), written),
    ensures
        written <= events@.len(),
        written == events@.len() || final(slot)@.len() == old(slot).spec_capacity(),
        final(slot)@.len() == old(slot)@.len() + written,
        final(slot)@.len() <= old(slot).spec_capacity(),
        forall|i: int|
            0 <= i < old(slot)@.len() ==> #[trigger] final(slot)@[i] == old(slot)@[i],
        forall|i: int|
            0 <= i < written ==> final(slot)@[old(slot)@.len() + i] == #[trigger] events@[i],
        final(slot).spec_capacity() == old(slot).spec_capacity(),
        old(slot).written() + written <= usize::MAX ==> final(slot).written() == old(
            slot).written() + written,
        final(slot).failed() == old(slot).failed(),
{
    old(slot).law_slot_is_never_overfull();
}

/// A batch that is read holds the oldest events in their order, as many as were
/// asked for or as there are; the others stay.
pub proof fn law_slot_gives_a_batch_in_order<E>(
    slot: &mut EventSlot<E>,
    max_events: usize,
    events: Vec<TimerEventData<E>>,
)
    requires
        old(slot).wf(),
        call_ensures(EventSlot::<E>::batch_read, (slot, max_events), events),
    ensures
        events@.len() <= max_events,
        events@.len() == max_events || final(slot)@.len() == 0,
        events@ + final(slot)@ == old(slot)@,
        final(slot).spec_capacity() == old(slot).spec_capacity(),
        final(slot).written() == old(slot).written(),
        final(slot).failed() == old(slot).failed(),
{
}

/// What is written to an empty slot and then read is the same events in the same
/// order, as far as they found room.
pub proof fn law_slot_gives_back_what_it_took<E>(
    slot: &mut EventSlot<E>,
    events: Vec<TimerEventData<E>>,
    written: usize,
    later: &mut EventSlot<E>,
    max_events: usize,
    given: Vec<TimerEventData<E>>,
)
    requires
        old(slot).wf(),
        old(slot)@.len() == 0,
        call_ensures(EventSlot::<E>::batch_write_events, (slot, events), written),
        *old(later) == *final(slot),
        call_ensures(EventSlot::<E>::batch_read, (later, max_events), given),
        max_events >= events@.len(),
    ensures
        given@.is_prefix_of(events@),
        events@.len() <= old(slot).spec_capacity() ==> given@ == events@,
        final(later)@.len() == 0,
{
    old(slot).law_slot_is_never_overfull();
    assert(old(slot)@ + events@.take(written as int) =~= events@.take(written as int));
    assert(given@ =~= events@.take(written as int));
}

/// A buffer says how many events it holds, whether it is empty or full, and how many
/// it can hold.
pub proof fn law_buffer_tells_its_state<E>(
    buffer: RingBuffer<E>,
    n: usize,
    empty: bool,
    full: bool,
    capacity: usize,
)
    requires
        buffer.wf(),
        call_ensures(RingBuffer::<E>::len, (&buffer,), n),
        call_ensures(RingBuffer::<E>::is_empty, (&buffer,), empty),
        call_ensures(RingBuffer::<E>::is_full, (&buffer,), full),
        call_ensures(RingBuffer::<E>::capacity, (&buffer,), capacity),
    ensures
        n == buffer@.len(),
        empty <==> n == 0,
        full <==> n == capacity,
        n <= capacity,
{
    buffer.law_never_overfull();
}

/// A slot says whether it took an event, which is where it has room.
pub proof fn law_slot_tells_whether_it_took_an_event<E>(
    slot: &mut EventSlot<E>,
    event: TimerEventData<E>,
    written: bool,
)
    requires
        old(slot).wf(),
        call_ensures(EventSlot::<E>::write_event, (slot, event), written),
    ensures
        written <==> old(slot)@.len() < old(slot).spec_capacity(),
        written ==> final(slot)@.len() == old(slot)@.len() + 1 && final(slot)@.last() == event
            && final(slot)@.drop_last() == old(slot)@ && final(slot).failed() == old(slot).failed()
            && (old(slot).written() < usize::MAX ==> final(slot).written() == old(slot).written()
            + 1),
        !written ==> final(slot)@ == old(slot)@ && final(slot).written() == old(slot).written()
            && (old(slot).failed() < usize::MAX ==> final(slot).failed() == old(slot).failed() + 1),
        final(slot).spec_capacity() == old(slot).spec_capacity(),
{
    assert(old(slot)@.push(event).drop_last() =~= old(slot)@);
}

/// A slot tells the writes that went through, those that did not, what it holds and
/// what it can hold. A new one starts at nothing.
pub proof fn law_slot_tells_its_figures<E>(
    slot: EventSlot<E>,
    stats: (usize, usize, usize, usize),
    capacity: usize,
    fresh: EventSlot<E>,
)
    requires
        call_ensures(EventSlot::<E>::get_stats, (&slot,), stats),
        call_ensures(EventSlot::<E>::new, (capacity,), fresh),
    ensures
        stats.0 == slot.written(),
        stats.1 == slot.failed(),
        stats.2 == slot@.len(),
        stats.3 == slot.spec_capacity(),
        fresh.written() == 0,
        fresh.failed() == 0,
{
}

/// All events of all buffers, whatever their order.
pub open spec fn held<T>(buffers: Seq<Seq<T>>) -> Multiset<T>
    decreases buffers.len(),
{
    if buffers.len() == 0 {
        Multiset::empty()
    } else {
        held(buffers.drop_last()).add(buffers.last().to_multiset())
    }
}

proof fn lemma_held_after_change<T>(buffers: Seq<Seq<T>>, i: int, added: Seq<T>)
    requires
        0 <= i < buffers.len(),
    ensures
        held(buffers.update(i, buffers[i] + added)) == held(buffers).add(added.to_multiset()),
    decreases buffers.len(),
{
    let after = buffers.update(i, buffers[i] + added);
    if i == buffers.len() - 1 {
        assert(after.drop_last() =~= buffers.drop_last());
        vstd::seq_lib::lemma_multiset_commutative(buffers[i], added);
        assert(held(after) =~= held(buffers).add(added.to_multiset()));
    } else {
        assert(after.drop_last() =~= buffers.drop_last().update(i, buffers[i] + added));
        lemma_held_after_change(buffers.drop_last(), i, added);
        assert(held(after) =~= held(buffers).add(added.to_multiset()));
    }
}

proof fn lemma_split_multiset<T>(events: Seq<T>, n: int)
    requires
        0 <= n <= events.len(),
    ensures
        events.to_multiset() == events.take(n).to_multiset().add(events.skip(n).to_multiset()),
        events.take(n).to_multiset().subset_of(events.to_multiset()),
{
    assert(events =~= events.take(n) + events.skip(n));
    vstd::seq_lib::lemma_multiset_commutative(events.take(n), events.skip(n));
}

/// Whether `after` holds what `before` holds and, besides, each event of `events` at
/// most as often as it occurs there.
pub open spec fn takes_in<T>(before: Seq<Seq<T>>, after: Seq<Seq<T>>, events: Seq<T>) -> bool {
    &&& held(before).subset_of(held(after))
    &&& held(after).subset_of(held(before).add(events.to_multiset()))
}

proof fn lemma_written_is_held<T>(buffers: Seq<Seq<T>>, capacity: int, i: int, events: Seq<T>)
    requires
        0 <= i < buffers.len(),
        buffers[i].len() <= capacity,
    ensures
        takes_in(buffers, lockfree_ring::written_to(buffers, capacity, i, events), events),
{
    let n = if events.len() <= capacity - buffers[i].len() {
        events.len() as int
    } else {
        capacity - buffers[i].len()
    };
    lemma_held_after_change(buffers, i, events.take(n));
    lemma_split_multiset(events, n);
}

proof fn lemma_taken_in_turn<T>(
    first: Seq<Seq<T>>,
    second: Seq<Seq<T>>,
    third: Seq<Seq<T>>,
    events: Seq<T>,
    n: int,
)
    requires
        0 <= n <= events.len(),
        takes_in(first, second, events.take(n)),
        takes_in(second, third, events.skip(n)),
    ensures
        takes_in(first, third, events),
{
    lemma_split_multiset(events, n);
    assert forall|x: T| held(third).count(x) <= held(first).add(events.to_multiset()).count(
        x,
    ) by {
        assert(held(second).count(x) <= held(first).add(events.take(n).to_multiset()).count(x));
        assert(held(third).count(x) <= held(second).add(events.skip(n).to_multiset()).count(x));
    }
}

proof fn lemma_spread_is_held<T>(
    slots: Seq<Seq<T>>,
    capacity: int,
    at: int,
    size: int,
    events: Seq<T>,
)
    requires
        zero_copy::in_bounds(slots, capacity),
        0 <= at < slots.len(),
    ensures
        takes_in(slots, zero_copy::spread(slots, capacity, at, size, events), events),
    decreases events.len(),
{
    if events.len() == 0 || size <= 0 {
    } else {
        let portion = lockfree_ring::smaller(size, events.len() as int);
        let middle = lockfree_ring::written_to(slots, capacity, at, events.take(portion));
        let next = lockfree_ring::nth(slots.len() as int, at, 1);
        lemma_written_is_held(slots, capacity, at, events.take(portion));
        lockfree_ring::lemma_nth_next(slots.len() as int, at, 1);
        lemma_spread_is_held(middle, capacity, next, size, events.skip(portion));
        lemma_taken_in_turn(
            slots,
            middle,
            zero_copy::spread(middle, capacity, next, size, events.skip(portion)),
            events,
            portion,
        );
    }
}

proof fn lemma_first_with_room<T>(slots: Seq<Seq<T>>, capacity: int, at: int, d: int)
    requires
        slots.len() > 0,
        d >= 0,
    ensures
        zero_copy::first_with_room(slots, capacity, at, d) matches Some(i) ==> 0 <= i
            < slots.len() && slots[i].len() < capacity,
    decreases slots.len() - d,
{
    if d < slots.len() {
        lockfree_ring::lemma_nth_next(slots.len() as int, at, d);
        lemma_first_with_room(slots, capacity, at, d + 1);
    }
}

proof fn lemma_placed_is_held<T>(slots: Seq<Seq<T>>, capacity: int, at: int, events: Seq<T>)
    requires
        zero_copy::in_bounds(slots, capacity),
        0 <= at < slots.len(),
    ensures
        takes_in(slots, zero_copy::placed_in_turn(slots, capacity, at, events), events),
    decreases events.len(),
{
    if events.len() > 0 {
        lemma_first_with_room(slots, capacity, at, 0);
        match zero_copy::first_with_room(slots, capacity, at, 0) {
            None => {},
            Some(i) => {
                let middle = slots.update(i, slots[i].push(events[0]));
                let next = lockfree_ring::nth(slots.len() as int, i, 1);
                assert(slots[i].push(events[0]) =~= slots[i] + events.take(1));
                lemma_held_after_change(slots, i, events.take(1));
                lockfree_ring::lemma_nth_next(slots.len() as int, i, 1);
                lemma_placed_is_held(middle, capacity, next, events.skip(1));
                lemma_taken_in_turn(
                    slots,
                    middle,
                    zero_copy::placed_in_turn(middle, capacity, next, events.skip(1)),
                    events,
                    1,
                );
            },
        }
    }
}

/// Whether a batch went to the buffer `best` alone, behind what it holds and in order,
/// as far as there is room, and whether that buffer holds no more than any other that
/// was looked at: the one whose turn it is and up to `ahead` behind it round the ring.
/// The buffer behind `best` is next.
pub open spec fn goes_to<E>(
    before: DispatcherState<E>,
    events: Seq<TimerEventData<E>>,
    after: DispatcherState<E>,
    dispatched: usize,
    ahead: int,
    best: int,
) -> bool {
    let n = before.buffers.len() as int;
    &&& 0 <= best < n
    &&& exists|d: int| 0 <= d <= ahead && d <= n && best == #[trigger] ((before.index + d) % n)
    &&& forall|j: int|
        0 <= j <= ahead && j <= n ==> before.buffers[best].len()
            <= before.buffers[#[trigger] ((before.index + j) % n)].len()
    &&& dispatched <= events.len()
    &&& dispatched == events.len() || after.buffers[best].len() == before.capacity
    &&& after.buffers[best] == before.buffers[best] + events.take(dispatched as int)
    &&& after.buffers.len() == n
    &&& forall|i: int|
        0 <= i < n && i != best ==> #[trigger] after.buffers[i] == before.buffers[i]
    &&& after.index == if best == n - 1 {
        0
    } else {
        best + 1
    }
    &&& after.capacity == before.capacity
    &&& before.dispatched + dispatched <= usize::MAX ==> after.dispatched == before.dispatched
        + dispatched
    &&& before.rejected + (events.len() - dispatched) <= usize::MAX ==> after.rejected
        == before.rejected + (events.len() - dispatched)
}

/// A batch goes to one buffer, which holds no more than any of the others that are
/// looked at: the one whose turn it is and up to three behind it round the ring.
pub proof fn law_dispatched_batch_goes_to_the_least_used_buffer<E>(
    dispatcher: &mut OptimizedZeroCopyDispatcher<E>,
    events: Vec<TimerEventData<E>>,
    dispatched: usize,
)
    requires
        old(dispatcher).wf(),
        events@.len() > 0,
        old(dispatcher)@.buffers.len() > 0,
        call_ensures(
            OptimizedZeroCopyDispatcher::<E>::batch_dispatch_events,
            (dispatcher, events),
            dispatched,
        ),
    ensures
        exists|best: int| #[trigger]
            goes_to(
                old(dispatcher)@,
                events@,
                final(dispatcher)@,
                dispatched,
                3,
                best,
            ),
{
    let before = old(dispatcher)@;
    let after = final(dispatcher)@;
    let n = before.buffers.len() as int;
    old(dispatcher).law_buffers_stay_in_bounds();
    let ahead = lockfree_ring::smaller(lockfree_ring::CHECKED_BUFFERS as int, n);
    assert forall|best: int|
        {
            &&& 0 <= best < n
            &&& #[trigger] lockfree_ring::least_used(before.buffers, before.index, ahead, best)
            &&& dispatched == lockfree_ring::fitting(
                before.buffers[best],
                before.capacity,
                events@,
            ).len()
            &&& after == (DispatcherState {
                buffers: lockfree_ring::written_to(
                    before.buffers,
                    before.capacity,
                    best,
                    events@,
                ),
                index: lockfree_ring::nth(n, best, 1),
                dispatched: before.dispatched.wrapping_add(dispatched),
                rejected: before.rejected.wrapping_add((events@.len() - dispatched) as usize),
                ..before
            })
        } implies goes_to(before, events@, after, dispatched, 3, best) by {
        lemma_least_used(before.buffers, before.index, ahead, best);
        assert(before.buffers[best].len() <= before.capacity);
        vstd::arithmetic::div_mod::lemma_small_mod(best as nat, n as nat);
        lockfree_ring::lemma_nth_next(n, best, 0);
    }
}

proof fn lemma_least_used<T>(buffers: Seq<Seq<T>>, start: int, ahead: int, best: int)
    requires
        lockfree_ring::least_used(buffers, start, ahead, best),
    ensures
        exists|d: int|
            0 <= d <= ahead && best == #[trigger] ((start + d) % (buffers.len() as int)),
        forall|j: int|
            0 <= j <= ahead ==> buffers[best].len() <= buffers[#[trigger] ((start + j) % (
            buffers.len() as int))].len(),
{
    let n = buffers.len() as int;
    let d = choose|d: int|
        {
            &&& 0 <= d <= ahead
            &&& best == #[trigger] lockfree_ring::nth(n, start, d)
            &&& forall|j: int|
                0 <= j <= ahead ==> buffers[best].len() <= buffers[#[trigger] lockfree_ring::nth(
                    n,
                    start,
                    j,
                )].len()
        };
    assert(best == (start + d) % n);
    assert forall|j: int| 0 <= j <= ahead implies buffers[best].len() <= buffers[#[trigger] ((start
        + j) % n)].len() by {
        assert(lockfree_ring::nth(n, start, j) == (start + j) % n);
    }
}

/// A batch that fits into each of the buffers that are looked at is taken whole.
pub proof fn law_fitting_batch_is_dispatched_whole<E>(
    dispatcher: &mut OptimizedZeroCopyDispatcher<E>,
    events: Vec<TimerEventData<E>>,
    dispatched: usize,
)
    requires
        old(dispatcher).wf(),
        old(dispatcher)@.buffers.len() > 0,
        call_ensures(
            OptimizedZeroCopyDispatcher::<E>::batch_dispatch_events,
            (dispatcher, events),
            dispatched,
        ),
        forall|i: int|
            0 <= i < old(dispatcher)@.buffers.len() ==> (#[trigger] old(
                dispatcher)@.buffers[i]).len() + events@.len() <= old(dispatcher)@.capacity,
    ensures
        dispatched == events@.len(),
        takes_in(old(dispatcher)@.buffers, final(dispatcher)@.buffers, events@),
        held(final(dispatcher)@.buffers) == held(old(dispatcher)@.buffers).add(
            events@.to_multiset(),
        ),
{
    let before = old(dispatcher)@;
    if events@.len() > 0 {
        law_dispatched_batch_goes_to_the_least_used_buffer(dispatcher, events, dispatched);
        assert forall|best: int| #[trigger]
            goes_to(
                before,
                events@,
                final(dispatcher)@,
                dispatched,
                3,
                best,
            ) implies dispatched == events@.len() && held(final(dispatcher)@.buffers) == held(
            before.buffers,
        ).add(events@.to_multiset()) by {
            assert(before.buffers[best].len() + events@.len() <= before.capacity);
            assert(events@.take(events@.len() as int) =~= events@);
            assert(final(dispatcher)@.buffers =~= before.buffers.update(
                best,
                before.buffers[best] + events@,
            ));
            lemma_held_after_change(before.buffers, best, events@);
        }
    } else {
        events@.to_multiset_ensures();
        assert(held(before.buffers).add(events@.to_multiset()) =~= held(before.buffers));
    }
}

/// What is consumed is the oldest events of each of the buffers, one behind the
/// other, as many as were asked for or as there are; the rest stays in order.
pub proof fn law_buffers_are_consumed_from_the_front<E>(
    dispatcher: &mut OptimizedZeroCopyDispatcher<E>,
    max: usize,
    events: Vec<TimerEventData<E>>,
)
    requires
        old(dispatcher).wf(),
        call_ensures(OptimizedZeroCopyDispatcher::<E>::batch_consume_events, (dispatcher, max), events),
    ensures
        ({
            let before = old(dispatcher)@.buffers;
            let after = final(dispatcher)@.buffers;
            &&& after.len() == before.len()
            &&& forall|i: int|
                0 <= i < before.len() ==> {
                    let n = before[i].len() - (#[trigger] after[i]).len();
                    &&& 0 <= n <= max
                    &&& n == max || after[i].len() == 0
                    &&& after[i] == before[i].skip(n)
                    &&& events@.skip(
                        taken_before(before, after, i),
                    ).take(n) == before[i].take(n)
                }
            &&& events@.len() == taken_before(before, after, before.len() as int)
        }),
        final(dispatcher)@.capacity == old(dispatcher)@.capacity,
        final(dispatcher)@.index == old(dispatcher)@.index,
        final(dispatcher)@.dispatched == old(dispatcher)@.dispatched,
        final(dispatcher)@.rejected == old(dispatcher)@.rejected,
{
    let before = old(dispatcher)@.buffers;
    let after = final(dispatcher)@.buffers;
    assert(events@ == lockfree_ring::heads(before, max as int));
    assert(after == lockfree_ring::tails(before, max as int));
    lemma_heads_length(before, max as int, before.len() as int);
    assert(before.take(before.len() as int) =~= before);
    assert forall|i: int| 0 <= i < before.len() implies ({
        let n = before[i].len() - (#[trigger] after[i]).len();
        &&& 0 <= n <= max
        &&& n == max || after[i].len() == 0
        &&& after[i] == before[i].skip(n)
        &&& events@.skip(taken_before(before, after, i)).take(n) == before[i].take(n)
    }) by {
        lemma_heads(before, max as int, i);
    }
}

/// A dispatcher tells the counts of its events, how many each of its buffers holds,
/// and how many each can hold. A new one has as many empty buffers as were asked for.
pub proof fn law_dispatcher_of_buffers_tells_its_figures<E>(
    dispatcher: OptimizedZeroCopyDispatcher<E>,
    stats: (usize, usize, Vec<usize>, usize),
)
    requires
        dispatcher.wf(),
        call_ensures(OptimizedZeroCopyDispatcher::<E>::get_stats, (&dispatcher,), stats),
    ensures
        stats.0 == dispatcher@.dispatched,
        stats.1 == dispatcher@.rejected,
        stats.2@.len() == dispatcher@.buffers.len(),
        dispatcher@.capacity <= usize::MAX ==> forall|i: int|
            0 <= i < dispatcher@.buffers.len() ==> #[trigger] stats.2@[i]
                == dispatcher@.buffers[i].len(),
        stats.3 == dispatcher@.capacity,
{
    dispatcher.law_buffers_stay_in_bounds();
    assert forall|i: int| 0 <= i < dispatcher@.buffers.len() implies #[trigger] stats.2@[i]
        == dispatcher@.buffers[i].len() by {
        assert(dispatcher@.buffers[i].len() <= dispatcher@.capacity);
    }
}

/// What is consumed is the oldest events of each of the slots, one behind the
/// other, as many as were asked for or as there are; the rest stays in order.
pub proof fn law_slots_are_consumed_from_the_front<E: EventDataTrait>(
    dispatcher: &mut SmartZeroCopyDispatcher<E>,
    max: usize,
    events: Vec<TimerEventData<E>>,
)
    requires
        old(dispatcher).wf(),
        call_ensures(SmartZeroCopyDispatcher::<E>::batch_consume_events, (dispatcher, max), events),
    ensures
        ({
            let before = old(dispatcher)@.buffers;
            let after = final(dispatcher)@.buffers;
            &&& after.len() == before.len()
            &&& forall|i: int|
                0 <= i < before.len() ==> {
                    let n = before[i].len() - (#[trigger] after[i]).len();
                    &&& 0 <= n <= max
                    &&& n == max || after[i].len() == 0
                    &&& after[i] == before[i].skip(n)
                    &&& events@.skip(
                        taken_before(before, after, i),
                    ).take(n) == before[i].take(n)
                }
            &&& events@.len() == taken_before(before, after, before.len() as int)
        }),
        final(dispatcher)@.capacity == old(dispatcher)@.capacity,
        final(dispatcher)@.index == old(dispatcher)@.index,
        final(dispatcher)@.dispatched == old(dispatcher)@.dispatched,
        final(dispatcher)@.rejected == old(dispatcher)@.rejected,
        final(dispatcher).processor() == old(dispatcher).processor(),
{
    let before = old(dispatcher)@.buffers;
    let after = final(dispatcher)@.buffers;
    assert(events@ == lockfree_ring::heads(before, max as int));
    assert(after == lockfree_ring::tails(before, max as int));
    lemma_heads_length(before, max as int, before.len() as int);
    assert(before.take(before.len() as int) =~= before);
    assert forall|i: int| 0 <= i < before.len() implies ({
        let n = before[i].len() - (#[trigger] after[i]).len();
        &&& 0 <= n <= max
        &&& n == max || after[i].len() == 0
        &&& after[i] == before[i].skip(n)
        &&& events@.skip(taken_before(before, after, i)).take(n) == before[i].take(n)
    }) by {
        lemma_heads(before, max as int, i);
    }
}

/// A dispatcher tells the counts of its events, how many each of its slots holds,
/// and how many each can hold. A new one has as many empty slots as were asked for.
pub proof fn law_dispatcher_of_slots_tells_its_figures<E: EventDataTrait>(
    dispatcher: SmartZeroCopyDispatcher<E>,
    stats: (usize, usize, Vec<usize>, usize),
)
    requires
        dispatcher.wf(),
        call_ensures(SmartZeroCopyDispatcher::<E>::get_stats, (&dispatcher,), stats),
    ensures
        stats.0 == dispatcher@.dispatched,
        stats.1 == dispatcher@.rejected,
        stats.2@.len() == dispatcher@.buffers.len(),
        dispatcher@.capacity <= usize::MAX ==> forall|i: int|
            0 <= i < dispatcher@.buffers.len() ==> #[trigger] stats.2@[i]
                == dispatcher@.buffers[i].len(),
        stats.3 == dispatcher@.capacity,
{
    dispatcher.law_slots_stay_in_bounds();
    assert forall|i: int| 0 <= i < dispatcher@.buffers.len() implies #[trigger] stats.2@[i]
        == dispatcher@.buffers[i].len() by {
        assert(dispatcher@.buffers[i].len() <= dispatcher@.capacity);
    }
}

/// How many events the buffers before position `i` held more than they hold now.
pub open spec fn taken_before<T>(before: Seq<Seq<T>>, after: Seq<Seq<T>>, i: int) -> int
    decreases i,
{
    if i <= 0 {
        0
    } else {
        taken_before(before, after, i - 1) + before[i - 1].len() - after[i - 1].len()
    }
}

proof fn lemma_heads_length<T>(buffers: Seq<Seq<T>>, max: int, i: int)
    requires
        0 <= i <= buffers.len(),
        0 <= max,
    ensures
        lockfree_ring::heads(buffers.take(i), max).len() == taken_before(
            buffers,
            lockfree_ring::tails(buffers, max),
            i,
        ),
        taken_before(buffers, lockfree_ring::tails(buffers, max), i) >= 0,
    decreases i,
{
    if i > 0 {
        assert(buffers.take(i).drop_last() =~= buffers.take(i - 1));
        lemma_heads_length(buffers, max, i - 1);
    }
}

proof fn lemma_heads_prefix<T>(buffers: Seq<Seq<T>>, max: int, i: int, k: int)
    requires
        0 <= i <= k <= buffers.len(),
        0 <= max,
    ensures
        lockfree_ring::heads(buffers.take(i), max).is_prefix_of(
            lockfree_ring::heads(buffers.take(k), max),
        ),
    decreases k - i,
{
    if i < k {
        lemma_heads_prefix(buffers, max, i, k - 1);
        assert(buffers.take(k).drop_last() =~= buffers.take(k - 1));
    }
}

proof fn lemma_heads<T>(buffers: Seq<Seq<T>>, max: int, i: int)
    requires
        0 <= i < buffers.len(),
        0 <= max,
    ensures
        ({
            let after = lockfree_ring::tails(buffers, max);
            let n = buffers[i].len() - after[i].len();
            lockfree_ring::heads(buffers, max).skip(taken_before(buffers, after, i)).take(n)
                == buffers[i].take(n)
        }),
{
    let after = lockfree_ring::tails(buffers, max);
    let n = buffers[i].len() - after[i].len();
    let all = lockfree_ring::heads(buffers, max);
    let upto = lockfree_ring::heads(buffers.take(i + 1), max);
    lemma_heads_length(buffers, max, i);
    lemma_heads_length(buffers, max, i + 1);
    lemma_heads_prefix(buffers, max, i + 1, buffers.len() as int);
    assert(buffers.take(buffers.len() as int) =~= buffers);
    assert(buffers.take(i + 1).drop_last() =~= buffers.take(i));
    let from = taken_before(buffers, after, i);
    assert forall|k: int| 0 <= k < n implies all.skip(from).take(n)[k] == buffers[i].take(
        n,
    )[k] by {
        assert(all[from + k] == upto[from + k]);
    }
    assert(all.skip(from).take(n) =~= buffers[i].take(n));
}

/// A new dispatcher has empty buffers of the capacity asked for, begins with the first
/// and has counted nothing.
pub proof fn law_dispatcher_of_buffers_starts_empty<E>(
    capacity: usize,
    count: usize,
    dispatcher: OptimizedZeroCopyDispatcher<E>,
)
    requires
        call_ensures(OptimizedZeroCopyDispatcher::<E>::new, (capacity, count), dispatcher),
    ensures
        dispatcher@.buffers.len() == count,
        forall|i: int| 0 <= i < count ==> (#[trigger] dispatcher@.buffers[i]).len() == 0,
        capacity > 0 ==> dispatcher@.capacity == capacity,
        capacity == 0 ==> dispatcher@.capacity == 1,
        dispatcher@.index == 0,
        dispatcher@.dispatched == 0,
        dispatcher@.rejected == 0,
{
}

/// A new dispatcher has empty slots of the capacity asked for, begins with the first
/// and has counted nothing. A quarter of its pool is filled, and batches from 32
/// events on count as large.
pub proof fn law_dispatcher_of_slots_starts_empty<E: EventDataTrait>(
    capacity: usize,
    count: usize,
    pool_size: usize,
    dispatcher: SmartZeroCopyDispatcher<E>,
)
    requires
        call_ensures(
            SmartZeroCopyDispatcher::<E>::new,
            (capacity, count, pool_size),
            dispatcher,
        ),
    ensures
        dispatcher@.buffers.len() == count,
        forall|i: int| 0 <= i < count ==> (#[trigger] dispatcher@.buffers[i]).len() == 0,
        capacity > 0 ==> dispatcher@.capacity == capacity,
        capacity == 0 ==> dispatcher@.capacity == 1,
        dispatcher@.index == 0,
        dispatcher@.dispatched == 0,
        dispatcher@.rejected == 0,
        dispatcher.processor().pool_config().max_size == pool_size,
        4 * dispatcher.processor().pooled().len() <= pool_size
            < 4 * dispatcher.processor().pooled().len() + 4,
        dispatcher.processor().threshold() == 32,
        dispatcher.processor().spec_counts().processed == 0,
        dispatcher.processor().spec_counts().small_batches == 0,
        dispatcher.processor().spec_counts().large_batches == 0,
{
}

/// What the slots of a dispatcher have after a batch: all that they had, in its place,
/// and behind it events of the batch, none more often than the batch has it. As many
/// were dispatched as the slots hold more now; the rest counts as rejected. The next
/// batch begins behind the slot that this one began with, which holds no more than
/// the slot whose turn it was and the two behind it.
pub open spec fn taken_by_slots<E>(
    before: DispatcherState<E>,
    events: Seq<TimerEventData<E>>,
    after: DispatcherState<E>,
    dispatched: usize,
) -> bool {
    let n = before.buffers.len() as int;
    &&& after.buffers.len() == n
    &&& after.capacity == before.capacity
    &&& forall|i: int|
        0 <= i < n ==> before.buffers[i].is_prefix_of(#[trigger] after.buffers[i])
            && after.buffers[i].len() <= before.capacity
    &&& takes_in(before.buffers, after.buffers, events)
    &&& held(after.buffers).len() == held(before.buffers).len() + dispatched
    &&& dispatched <= events.len()
    &&& before.dispatched + dispatched <= usize::MAX ==> after.dispatched == before.dispatched
        + dispatched
    &&& before.rejected + (events.len() - dispatched) <= usize::MAX ==> after.rejected
        == before.rejected + (events.len() - dispatched)
    &&& events.len() == 0 ==> after.index == before.index
    &&& events.len() > 0 ==> exists|best: int|
        {
            &&& 0 <= best < n
            &&& #[trigger] begins_with(before, best)
            &&& after.index == if best == n - 1 {
                0
            } else {
                best + 1
            }
            &&& placed_from(before.buffers, after.buffers, before.capacity, events, best)
        }
}

/// Whether the slot `best` is one of the three whose turn it is, and holds no more than
/// any of them.
pub open spec fn begins_with<E>(before: DispatcherState<E>, best: int) -> bool {
    let n = before.buffers.len() as int;
    &&& exists|d: int| 0 <= d < 3 && d < n && best == #[trigger] ((before.index + d) % n)
    &&& forall|j: int|
        0 <= j < 3 && j < n ==> before.buffers[best].len() <= before.buffers[#[trigger] ((
        before.index + j) % n)].len()
}

/// Whether `event` came to the slot behind what it had.
pub open spec fn came_to<T>(before: Seq<T>, after: Seq<T>, event: T) -> bool {
    exists|p: int| before.len() <= p < after.len() && #[trigger] after[p] == event
}

/// The slot that the event at position `k` of a batch of `len` events goes to, where
/// there is room. Fewer than 32 events go round the slots one by one. Of more events,
/// the slot `best` gets two even shares, and each further slot round the ring one.
pub open spec fn slot_of(n: int, best: int, len: int, k: int) -> int {
    let share = len / n;
    let size = if share == 0 {
        1
    } else {
        share
    };
    if len < 32 {
        (best + k) % n
    } else if k < 2 * share {
        best
    } else if 2 * share >= len {
        best
    } else {
        (best + 1 + (k - 2 * share) / size) % n
    }
}

/// Where every slot has room for the whole batch, each event comes to its slot. Of
/// fewer than 32 events, one is left out only where all slots are full.
pub open spec fn placed_from<T>(
    before: Seq<Seq<T>>,
    after: Seq<Seq<T>>,
    capacity: int,
    events: Seq<T>,
    best: int,
) -> bool {
    let n = before.len() as int;
    &&& (forall|i: int| 0 <= i < n ==> (#[trigger] before[i]).len() + events.len() <= capacity)
        ==> forall|k: int|
        0 <= k < events.len() ==> {
            let slot = slot_of(n, best, events.len() as int, k);
            0 <= slot < n && came_to(before[slot], after[slot], #[trigger] events[k])
        }
    &&& events.len() < 32 ==> held(after).len() == held(before).len() + events.len() || forall|
        i: int,
    |
        0 <= i < n ==> (#[trigger] after[i]).len() == capacity
}

proof fn lemma_total_is_held<T>(slots: Seq<Seq<T>>)
    ensures
        held(slots).len() == lockfree_ring::total(slots),
    decreases slots.len(),
{
    if slots.len() > 0 {
        lemma_total_is_held(slots.drop_last());
        slots.last().to_multiset_ensures();
    }
}

proof fn lemma_none_with_room<T>(slots: Seq<Seq<T>>, capacity: int, at: int, d: int, i: int)
    requires
        0 <= at < slots.len(),
        0 <= d,
        zero_copy::first_with_room(slots, capacity, at, d) is None,
        d <= i < slots.len(),
    ensures
        slots[(at + i) % (slots.len() as int)].len() >= capacity,
    decreases slots.len() - d,
{
    if d < i {
        lemma_none_with_room(slots, capacity, at, d + 1, i);
    }
}

proof fn lemma_all_full<T>(slots: Seq<Seq<T>>, capacity: int, at: int)
    requires
        0 <= at < slots.len(),
        zero_copy::in_bounds(slots, capacity),
        zero_copy::first_with_room(slots, capacity, at, 0) is None,
    ensures
        forall|i: int| 0 <= i < slots.len() ==> (#[trigger] slots[i]).len() == capacity,
{
    let n = slots.len() as int;
    assert forall|i: int| 0 <= i < n implies (#[trigger] slots[i]).len() == capacity by {
        let d = if i >= at {
            i - at
        } else {
            i - at + n
        };
        lemma_none_with_room(slots, capacity, at, 0, d);
        vstd::arithmetic::div_mod::lemma_small_mod(i as nat, n as nat);
        if i < at {
            vstd::arithmetic::div_mod::lemma_mod_add_multiples_vanish(i, n);
        }
        assert((at + d) % n == i);
    }
}

proof fn lemma_placed_uses_all_room<T>(slots: Seq<Seq<T>>, capacity: int, at: int, events: Seq<T>)
    requires
        zero_copy::in_bounds(slots, capacity),
        0 <= at < slots.len(),
    ensures
        ({
            let after = zero_copy::placed_in_turn(slots, capacity, at, events);
            &&& after.len() == slots.len()
            &&& held(after).len() == held(slots).len() + events.len() || forall|i: int|
                0 <= i < slots.len() ==> (#[trigger] after[i]).len() == capacity
        }),
    decreases events.len(),
{
    if events.len() > 0 {
        lemma_first_with_room(slots, capacity, at, 0);
        match zero_copy::first_with_room(slots, capacity, at, 0) {
            None => {
                lemma_all_full(slots, capacity, at);
            },
            Some(i) => {
                let middle = slots.update(i, slots[i].push(events[0]));
                let next = lockfree_ring::nth(slots.len() as int, i, 1);
                assert(slots[i].push(events[0]) =~= slots[i] + events.take(1));
                lemma_held_after_change(slots, i, events.take(1));
                events.take(1).to_multiset_ensures();
                lockfree_ring::lemma_nth_next(slots.len() as int, i, 1);
                lemma_placed_uses_all_room(middle, capacity, next, events.skip(1));
            },
        }
    }
}

/// One step round the ring and `j` further ones are `j + 1` steps.
proof fn lemma_steps(n: int, at: int, j: int)
    requires
        n > 0,
        0 <= at < n,
        j >= 0,
    ensures
        ((at + 1) % n + j) % n == (at + 1 + j) % n,
        0 <= (at + 1 + j) % n < n,
{
    vstd::arithmetic::div_mod::lemma_add_mod_noop_right(j, at + 1, n);
    assert((j + (at + 1) % n) % n == (j + (at + 1)) % n);
    vstd::arithmetic::div_mod::lemma_mod_bound(at + 1 + j, n);
}

proof fn lemma_placed_in_turn<T>(
    slots: Seq<Seq<T>>,
    capacity: int,
    at: int,
    events: Seq<T>,
    k: int,
)
    requires
        forall|i: int|
            0 <= i < slots.len() ==> (#[trigger] slots[i]).len() + events.len() <= capacity,
        0 <= at < slots.len(),
        0 <= k < events.len(),
    ensures
        ({
            let after = zero_copy::placed_in_turn(slots, capacity, at, events);
            let slot = (at + k) % (slots.len() as int);
            &&& 0 <= slot < slots.len()
            &&& came_to(slots[slot], after[slot], events[k])
        }),
    decreases events.len(),
{
    let n = slots.len() as int;
    let after = zero_copy::placed_in_turn(slots, capacity, at, events);
    vstd::arithmetic::div_mod::lemma_small_mod(at as nat, n as nat);
    assert(slots[at].len() + events.len() <= capacity);
    assert(zero_copy::first_with_room(slots, capacity, at, 0) == Some(at));
    let middle = slots.update(at, slots[at].push(events[0]));
    let next = lockfree_ring::nth(n, at, 1);
    lockfree_ring::lemma_nth_next(n, at, 1);
    assert forall|i: int| 0 <= i < middle.len() implies (#[trigger] middle[i]).len()
        + events.skip(1).len() <= capacity by {
        assert(slots[i].len() + events.len() <= capacity);
    }
    if k == 0 {
        zero_copy::lemma_placed_adds(middle, capacity, next, events.skip(1));
        assert(middle[at].is_prefix_of(after[at]));
        assert(after[at][slots[at].len() as int] == middle[at][slots[at].len() as int]);
    } else {
        lemma_placed_in_turn(middle, capacity, next, events.skip(1), k - 1);
        lemma_steps(n, at, k - 1);
        let slot = (at + k) % n;
        assert(came_to(middle[slot], after[slot], events.skip(1)[k - 1]));
    }
}

proof fn lemma_spread_portions<T>(
    slots: Seq<Seq<T>>,
    capacity: int,
    at: int,
    size: int,
    events: Seq<T>,
    k: int,
)
    requires
        forall|i: int|
            0 <= i < slots.len() ==> (#[trigger] slots[i]).len() + events.len() <= capacity,
        0 <= at < slots.len(),
        size > 0,
        0 <= k < events.len(),
    ensures
        ({
            let after = zero_copy::spread(slots, capacity, at, size, events);
            let slot = (at + k / size) % (slots.len() as int);
            &&& 0 <= slot < slots.len()
            &&& came_to(slots[slot], after[slot], events[k])
        }),
    decreases events.len(),
{
    let n = slots.len() as int;
    let after = zero_copy::spread(slots, capacity, at, size, events);
    let portion = lockfree_ring::smaller(size, events.len() as int);
    let middle = lockfree_ring::written_to(slots, capacity, at, events.take(portion));
    let next = lockfree_ring::nth(n, at, 1);
    lockfree_ring::lemma_nth_next(n, at, 1);
    assert(slots[at].len() + events.len() <= capacity);
    assert(events.take(portion).take(portion) =~= events.take(portion));
    assert forall|i: int| 0 <= i < middle.len() implies (#[trigger] middle[i]).len()
        + events.skip(portion).len() <= capacity by {
        assert(slots[i].len() + events.len() <= capacity);
    }
    if k < portion {
        vstd::arithmetic::div_mod::lemma_basic_div(k, size);
        vstd::arithmetic::div_mod::lemma_small_mod(at as nat, n as nat);
        zero_copy::lemma_spread_adds(middle, capacity, next, size, events.skip(portion));
        assert(middle[at].is_prefix_of(after[at]));
        let p = slots[at].len() + k;
        assert(middle[at][p] == events[k]);
        assert(after[at][p] == middle[at][p]);
    } else {
        lemma_spread_portions(middle, capacity, next, size, events.skip(portion), k - size);
        vstd::arithmetic::div_mod::lemma_div_minus_one(k, size);
        vstd::arithmetic::div_mod::lemma_div_pos_is_pos(k - size, size);
        lemma_steps(n, at, (k - size) / size);
        let slot = (at + k / size) % n;
        assert(came_to(middle[slot], after[slot], events.skip(portion)[k - size]));
    }
}

proof fn lemma_delivered<T>(slots: Seq<Seq<T>>, capacity: int, best: int, events: Seq<T>)
    requires
        zero_copy::in_bounds(slots, capacity),
        0 <= best < slots.len(),
    ensures
        takes_in(slots, zero_copy::delivered(slots, capacity, best, events), events),
        placed_from(
            slots,
            zero_copy::delivered(slots, capacity, best, events),
            capacity,
            events,
            best,
        ),
{
    let n = slots.len() as int;
    let after = zero_copy::delivered(slots, capacity, best, events);
    let len = events.len() as int;
    if len < 32 {
        lemma_placed_is_held(slots, capacity, best, events);
        lemma_placed_uses_all_room(slots, capacity, best, events);
        if forall|i: int| 0 <= i < n ==> (#[trigger] slots[i]).len() + events.len() <= capacity {
            assert forall|k: int| 0 <= k < len implies ({
                let slot = slot_of(n, best, len, k);
                0 <= slot < n && came_to(slots[slot], after[slot], #[trigger] events[k])
            }) by {
                lemma_placed_in_turn(slots, capacity, best, events, k);
            }
        }
    } else {
        let share = len / n;
        let size = if share > 0 {
            share
        } else {
            1
        };
        vstd::arithmetic::div_mod::lemma_div_pos_is_pos(len, n);
        let first = lockfree_ring::smaller(2 * share, len);
        let middle = lockfree_ring::written_to(slots, capacity, best, events.take(first));
        let next = lockfree_ring::nth(n, best, 1);
        lockfree_ring::lemma_nth_next(n, best, 1);
        lemma_written_is_held(slots, capacity, best, events.take(first));
        lemma_spread_is_held(middle, capacity, next, size, events.skip(first));
        lemma_taken_in_turn(slots, middle, after, events, first);
        if forall|i: int| 0 <= i < n ==> (#[trigger] slots[i]).len() + events.len() <= capacity {
            assert(slots[best].len() + events.len() <= capacity);
            assert(events.take(first).take(first) =~= events.take(first));
            assert forall|i: int| 0 <= i < n implies (#[trigger] middle[i]).len()
                + events.skip(first).len() <= capacity by {
                assert(slots[i].len() + events.len() <= capacity);
            }
            zero_copy::lemma_spread_adds(middle, capacity, next, size, events.skip(first));
            assert forall|k: int| 0 <= k < len implies ({
                let slot = slot_of(n, best, len, k);
                0 <= slot < n && came_to(slots[slot], after[slot], #[trigger] events[k])
            }) by {
                if k < first {
                    let p = slots[best].len() + k;
                    assert(middle[best][p] == events[k]);
                    assert(middle[best].is_prefix_of(after[best]));
                    assert(after[best][p] == middle[best][p]);
                } else {
                    lemma_spread_portions(
                        middle,
                        capacity,
                        next,
                        size,
                        events.skip(first),
                        k - first,
                    );
                    vstd::arithmetic::div_mod::lemma_div_pos_is_pos(k - first, size);
                    lemma_steps(n, best, (k - first) / size);
                    let slot = slot_of(n, best, len, k);
                    assert(came_to(middle[slot], after[slot], events.skip(first)[k - first]));
                }
            }
        }
    }
}

pub(crate) proof fn lemma_dispatches<E>(
    before: DispatcherState<E>,
    events: Seq<TimerEventData<E>>,
    after: DispatcherState<E>,
    dispatched: usize,
)
    requires
        zero_copy::in_bounds(before.buffers, before.capacity),
        zero_copy::dispatches(before, events, after, dispatched),
        events.len() <= usize::MAX,
    ensures
        taken_by_slots(before, events, after, dispatched),
{
    lemma_total_is_held(before.buffers);
    lemma_total_is_held(after.buffers);
    if events.len() == 0 {
        events.to_multiset_ensures();
        assert(held(before.buffers).add(events.to_multiset()) =~= held(before.buffers));
    } else {
        let n = before.buffers.len() as int;
        let ahead = lockfree_ring::smaller(lockfree_ring::CHECKED_BUFFERS as int, n) - 1;
        let best = choose|best: int|
            {
                &&& 0 <= best < n
                &&& #[trigger] lockfree_ring::least_used(
                    before.buffers,
                    before.index,
                    ahead,
                    best,
                )
                &&& after == (DispatcherState {
                    buffers: zero_copy::delivered(before.buffers, before.capacity, best, events),
                    index: lockfree_ring::nth(n, best, 1),
                    dispatched: before.dispatched.wrapping_add(dispatched),
                    rejected: before.rejected.wrapping_add((events.len() - dispatched) as usize),
                    ..before
                })
            };
        lemma_least_used(before.buffers, before.index, ahead, best);
        lemma_delivered(before.buffers, before.capacity, best, events);
        zero_copy::law_delivery_only_adds(before.buffers, before.capacity, best, events);
        vstd::arithmetic::div_mod::lemma_small_mod(best as nat, n as nat);
        lockfree_ring::lemma_nth_next(n, best, 0);
        assert(begins_with(before, best));
        events.to_multiset_ensures();
        let most = held(before.buffers).add(events.to_multiset());
        assert(most.sub(held(after.buffers)).len() == most.len() - held(after.buffers).len());
    }
}

/// A batch is spread over the slots.
pub proof fn law_batch_is_spread_over_the_slots<E: EventDataTrait>(
    dispatcher: &mut SmartZeroCopyDispatcher<E>,
    events: Vec<TimerEventData<E>>,
    dispatched: usize,
)
    requires
        old(dispatcher).wf(),
        call_ensures(
            SmartZeroCopyDispatcher::<E>::batch_dispatch_events,
            (dispatcher, events),
            dispatched,
        ),
    ensures
        taken_by_slots(old(dispatcher)@, events@, final(dispatcher)@, dispatched),
        final(dispatcher).processor() == old(dispatcher).processor(),
{
    old(dispatcher).law_slots_stay_in_bounds();
    assert(events@.len() == events.len());
    lemma_dispatches(old(dispatcher)@, events@, final(dispatcher)@, dispatched);
}

/// Events that are made for requests are spread over the slots like any others. Up to
/// 64 of them are made without the pool.
pub proof fn law_requested_events_are_spread_over_the_slots<E: EventDataTrait>(
    dispatcher: &mut SmartZeroCopyDispatcher<E>,
    requests: &[(ConnectionId, E)],
    dispatched: usize,
)
    requires
        old(dispatcher).wf(),
        call_ensures(
            SmartZeroCopyDispatcher::<E>::create_and_dispatch_events,
            (dispatcher, requests),
            dispatched,
        ),
    ensures
        exists|events: Seq<TimerEventData<E>>|
            {
                &&& events.len() == requests@.len()
                &&& forall|i: int|
                    0 <= i < events.len() ==> (#[trigger] events[i]).connection_id
                        == requests@[i].0 && cloned(requests@[i].1, events[i].timeout_event)
                &&& #[trigger] taken_by_slots(
                    old(dispatcher)@,
                    events,
                    final(dispatcher)@,
                    dispatched,
                )
            },
        requests@.len() <= 64 ==> final(dispatcher).processor().pooled() == old(
            dispatcher).processor().pooled() && final(dispatcher).processor().spec_counts() == old(
            dispatcher).processor().spec_counts(),
        requests@.len() > 64 ==> {
            let pooled = old(dispatcher).processor().pooled();
            let left = final(dispatcher).processor().pooled();
            &&& requests@.len() <= pooled.len() ==> left == pooled.skip(requests@.len() as int)
            &&& requests@.len() > pooled.len() ==> left.len() == 0
        },
        final(dispatcher).processor().pool_config() == old(dispatcher).processor().pool_config(),
        final(dispatcher).processor().threshold() == old(dispatcher).processor().threshold(),
{
    old(dispatcher).law_slots_stay_in_bounds();
    assert(requests@.len() == requests.len());
    assert forall|events: Seq<TimerEventData<E>>| #[trigger]
        traits::made_from(events, requests@) && zero_copy::dispatches(
            old(dispatcher)@,
            events,
            final(dispatcher)@,
            dispatched,
        ) implies taken_by_slots(old(dispatcher)@, events, final(dispatcher)@, dispatched) by {
        lemma_dispatches(old(dispatcher)@, events, final(dispatcher)@, dispatched);
    }
}

/// Gives the first few objects of a pool away: `left` is what stays of `pooled` where
/// `n` objects are asked for.
pub open spec fn stays<T>(pooled: Seq<T>, n: int, left: Seq<T>) -> bool {
    &&& n <= pooled.len() ==> left == pooled.skip(n)
    &&& n > pooled.len() ==> left.len() == 0
}

/// Takes objects back behind those that are pooled, in their order, until `max_size`
/// objects are there; the others are dropped.
pub open spec fn comes_back<T>(pooled: Seq<T>, max_size: int, objects: Seq<T>, after: Seq<T>) -> bool {
    &&& pooled.is_prefix_of(after)
    &&& after.skip(pooled.len() as int).is_prefix_of(objects)
    &&& after.len() == pooled.len() + objects.len() || after.len() == max_size || (pooled.len()
        >= max_size && after.len() == pooled.len())
    &&& after.len() <= max_size || after.len() == pooled.len()
}

/// Whether there is one piece of data for each request, in their order, with its
/// connection and its event.
pub open spec fn one_for_each<E: Clone>(
    data: Seq<TimerEventData<E>>,
    requests: Seq<(ConnectionId, E)>,
) -> bool {
    &&& data.len() == requests.len()
    &&& forall|i: int|
        0 <= i < data.len() ==> (#[trigger] data[i]).connection_id == requests[i].0
    &&& forall|i: int|
        0 <= i < data.len() ==> cloned(requests[i].1, (#[trigger] data[i]).timeout_event)
}

/// Data from a pool is what was asked for, whatever the pool held, and one object less is pooled.
pub proof fn law_acquired_data_is_as_asked_for<E: EventDataTrait>(
    pool: &mut TimerEventPool<E>,
    connection_id: ConnectionId,
    timeout_event: E,
    data: TimerEventData<E>,
)
    requires
        call_ensures(TimerEventPool::<E>::acquire, (pool, connection_id, timeout_event), data),
    ensures
        data.connection_id == connection_id,
        data.timeout_event == timeout_event,
        stays(old(pool)@, 1, final(pool)@),
        final(pool).spec_config() == old(pool).spec_config(),
{
}

/// Data made with a pool is what was asked for, whatever the pool held, and one object less is pooled.
pub proof fn law_data_from_a_pool_is_as_asked_for<E: EventDataTrait>(
    pool: &mut TimerEventPool<E>,
    connection_id: ConnectionId,
    timeout_event: E,
    data: TimerEventData<E>,
)
    requires
        call_ensures(TimerEventData::<E>::from_pool, (pool, connection_id, timeout_event), data),
    ensures
        data.connection_id == connection_id,
        data.timeout_event == timeout_event,
        stays(old(pool)@, 1, final(pool)@),
        final(pool).spec_config() == old(pool).spec_config(),
{
}

/// A batch from a pool holds the data of each request, whatever the pool held, and as many objects
/// less are pooled.
pub proof fn law_acquired_batch_is_as_asked_for<E: EventDataTrait>(
    pool: &mut TimerEventPool<E>,
    requests: &[(ConnectionId, E)],
    data: Vec<TimerEventData<E>>,
)
    requires
        call_ensures(TimerEventPool::<E>::batch_acquire, (pool, requests), data),
    ensures
        one_for_each(data@, requests@),
        stays(old(pool)@, requests@.len() as int, final(pool)@),
        final(pool).spec_config() == old(pool).spec_config(),
{
}

/// A batch made with a pool holds the data of each request, whatever the pool held, and as many objects
/// less are pooled.
pub proof fn law_batch_from_a_pool_is_as_asked_for<E: EventDataTrait>(
    pool: &mut TimerEventPool<E>,
    requests: &[(ConnectionId, E)],
    data: Vec<TimerEventData<E>>,
)
    requires
        call_ensures(TimerEventData::<E>::batch_from_pool, (pool, requests), data),
    ensures
        one_for_each(data@, requests@),
        stays(old(pool)@, requests@.len() as int, final(pool)@),
        final(pool).spec_config() == old(pool).spec_config(),
{
}

/// An object that is given back waits behind all others in the pool; a full pool drops it.
pub proof fn law_released_object_waits_at_the_end<E: EventDataTrait>(
    pool: &mut TimerEventPool<E>,
    object: TimerEventData<E>,
)
    requires
        call_ensures(TimerEventPool::<E>::release, (pool, object), ()),
    ensures
        old(pool)@.len() < old(pool).spec_config().max_size ==> final(pool)@.len() == old(
            pool)@.len() + 1 && final(pool)@.last() == object && final(pool)@.drop_last() == old(
            pool)@,
        old(pool)@.len() >= old(pool).spec_config().max_size ==> final(pool)@ == old(pool)@,
        final(pool).spec_config() == old(pool).spec_config(),
{
    assert(old(pool)@.push(object).drop_last() =~= old(pool)@);
}

/// An object that is given back waits behind all others in the pool; a full pool drops it.
pub proof fn law_returned_object_waits_at_the_end<E: EventDataTrait>(
    pool: &mut TimerEventPool<E>,
    object: TimerEventData<E>,
)
    requires
        call_ensures(TimerEventData::<E>::return_to_pool, (object, pool), ()),
    ensures
        old(pool)@.len() < old(pool).spec_config().max_size ==> final(pool)@.len() == old(
            pool)@.len() + 1 && final(pool)@.last() == object && final(pool)@.drop_last() == old(
            pool)@,
        old(pool)@.len() >= old(pool).spec_config().max_size ==> final(pool)@ == old(pool)@,
        final(pool).spec_config() == old(pool).spec_config(),
{
    assert(old(pool)@.push(object).drop_last() =~= old(pool)@);
}

/// Objects that are given back wait behind all others in the pool, as far as it has
/// room.
pub proof fn law_released_batch_waits_at_the_end<E: EventDataTrait>(
    pool: &mut TimerEventPool<E>,
    objects: Vec<TimerEventData<E>>,
)
    requires
        call_ensures(TimerEventPool::<E>::batch_release, (pool, objects), ()),
    ensures
        comes_back(
            old(pool)@,
            old(pool).spec_config().max_size as int,
            objects@,
            final(pool)@,
        ),
        final(pool).spec_config() == old(pool).spec_config(),
{
    lemma_comes_back(old(pool)@, old(pool).spec_config().max_size as int, objects@);
}

/// Objects that are given back wait behind all others in the pool, as far as it has
/// room.
pub proof fn law_returned_batch_waits_at_the_end<E: EventDataTrait>(
    pool: &mut TimerEventPool<E>,
    objects: Vec<TimerEventData<E>>,
)
    requires
        call_ensures(TimerEventData::<E>::batch_return_to_pool, (objects, pool), ()),
    ensures
        comes_back(
            old(pool)@,
            old(pool).spec_config().max_size as int,
            objects@,
            final(pool)@,
        ),
        final(pool).spec_config() == old(pool).spec_config(),
{
    lemma_comes_back(old(pool)@, old(pool).spec_config().max_size as int, objects@);
}

pub(crate) proof fn lemma_comes_back<T>(pooled: Seq<T>, max_size: int, objects: Seq<T>)
    requires
        max_size >= 0,
    ensures
        comes_back(
            pooled,
            max_size,
            objects,
            pooled + objects.take(
                crate::timer::event::pool::room_for(
                    pooled.len() as int,
                    max_size,
                    objects.len() as int,
                ),
            ),
        ),
{
    let n = crate::timer::event::pool::room_for(
        pooled.len() as int,
        max_size,
        objects.len() as int,
    );
    let after = pooled + objects.take(n);
    assert(after.take(pooled.len() as int) =~= pooled);
    assert(after.skip(pooled.len() as int) =~= objects.take(n));
}

/// A new pool holds as many objects as its configuration asks for, all of them for no
/// connection.
pub proof fn law_pool_starts_as_configured<E: EventDataTrait>(
    config: PoolConfig,
    pool: TimerEventPool<E>,
)
    requires
        call_ensures(TimerEventPool::<E>::new, (config,), pool),
    ensures
        pool@.len() == config.initial_size,
        forall|i: int| 0 <= i < pool@.len() ==> (#[trigger] pool@[i]).connection_id == 0,
        pool.spec_config() == config,
{
}

/// A pool with the default configuration holds up to 1024 objects, and 64 to begin
/// with, and works on batches in groups.
pub proof fn law_default_pool<E: EventDataTrait>(pool: TimerEventPool<E>, config: PoolConfig)
    requires
        call_ensures(TimerEventPool::<E>::new_default, (), pool),
        call_ensures(PoolConfig::default, (), config),
    ensures
        pool.spec_config() == config,
        pool@.len() == 64,
        forall|i: int| 0 <= i < pool@.len() ==> (#[trigger] pool@[i]).connection_id == 0,
        config.max_size == 1024,
        config.initial_size == 64,
        config.enable_batch_optimization,
{
}

/// A pool for up to `max_size` objects is filled to a sixteenth, but with no fewer
/// than four and no more than sixty-four objects, and never with more than it may hold.
pub proof fn law_pool_with_capacity<E: EventDataTrait>(max_size: usize, pool: TimerEventPool<E>)
    requires
        call_ensures(TimerEventPool::<E>::with_capacity, (max_size,), pool),
    ensures
        pool.spec_config().max_size == max_size,
        pool.spec_config().initial_size == pool@.len(),
        pool.spec_config().enable_batch_optimization,
        forall|i: int| 0 <= i < pool@.len() ==> (#[trigger] pool@[i]).connection_id == 0,
        max_size < 4 ==> pool@.len() == max_size,
        4 <= max_size < 80 ==> pool@.len() == 4,
        80 <= max_size < 1024 ==> 16 * pool@.len() <= max_size < 16 * pool@.len() + 16,
        max_size >= 1024 ==> pool@.len() == 64,
{
}

/// A pool tells how many objects it holds, and how it was set up.
pub proof fn law_pool_tells_its_figures<E: EventDataTrait>(
    pool: TimerEventPool<E>,
    stats: PoolStats,
    config: &PoolConfig,
)
    requires
        call_ensures(TimerEventPool::<E>::stats, (&pool,), stats),
        call_ensures(TimerEventPool::<E>::config, (&pool,), config),
    ensures
        stats.current_size == pool@.len(),
        stats.max_size == config.max_size,
        stats.initial_size == config.initial_size,
        *config == pool.spec_config(),
{
}

/// An object that is given back to an empty pool is the one that the next request uses
/// up, so the pool is empty again.
pub proof fn law_released_object_is_used_again<E: EventDataTrait>(
    pool: &mut TimerEventPool<E>,
    object: TimerEventData<E>,
    later: &mut TimerEventPool<E>,
    connection_id: ConnectionId,
    timeout_event: E,
    data: TimerEventData<E>,
)
    requires
        old(pool)@.len() == 0,
        call_ensures(TimerEventPool::<E>::release, (pool, object), ()),
        *old(later) == *final(pool),
        call_ensures(
            TimerEventPool::<E>::acquire,
            (later, connection_id, timeout_event),
            data,
        ),
    ensures
        old(pool).spec_config().max_size > 0 ==> old(later)@.len() == 1,
        final(later)@.len() == 0,
        data.connection_id == connection_id,
        data.timeout_event == timeout_event,
{
}

/// Data and events hold what they are made of.
pub proof fn law_data_and_events_hold_what_they_are_made_of<E, C>(
    connection_id: ConnectionId,
    timeout_event: E,
    data: TimerEventData<E>,
    id: TimerEventId,
    callback: C,
    event: TimerEvent<E, C>,
)
    requires
        call_ensures(TimerEventData::<E>::new, (connection_id, timeout_event), data),
        call_ensures(TimerEvent::<E, C>::new, (id, data, callback), event),
    ensures
        data.connection_id == connection_id,
        data.timeout_event == timeout_event,
        event.id == id,
        event.data == data,
        event.callback == callback,
{
}

/// The copy of a piece of data is for the same connection, with a clone of the event.
pub proof fn law_copied_data_is_the_same<E: Clone>(data: TimerEventData<E>, copy: TimerEventData<E>)
    requires
        call_ensures(TimerEventData::<E>::clone, (&data,), copy),
    ensures
        copy.connection_id == data.connection_id,
        cloned(data.timeout_event, copy.timeout_event),
{
}

/// An event that is made with a pool holds what it is made of, and one object less is
/// pooled.
pub proof fn law_event_from_a_pool_is_as_asked_for<E: EventDataTrait, C: Clone>(
    pool: &mut TimerEventPool<E>,
    id: TimerEventId,
    connection_id: ConnectionId,
    timeout_event: E,
    callback: C,
    event: TimerEvent<E, C>,
)
    requires
        call_ensures(
            TimerEvent::<E, C>::from_pool,
            (pool, id, connection_id, timeout_event, callback),
            event,
        ),
    ensures
        event.id == id,
        event.data.connection_id == connection_id,
        event.data.timeout_event == timeout_event,
        event.callback == callback,
        stays(old(pool)@, 1, final(pool)@),
        final(pool).spec_config() == old(pool).spec_config(),
{
}

/// Events that are made with a pool have identifiers in a row, and each is for the
/// request and has the callback at its place.
pub proof fn law_events_from_a_pool_are_as_asked_for<E: EventDataTrait, C: Clone>(
    pool: &mut TimerEventPool<E>,
    start_id: TimerEventId,
    requests: &[(ConnectionId, E)],
    callbacks: &[C],
    events: Vec<TimerEvent<E, C>>,
    i: int,
)
    requires
        call_ensures(
            TimerEvent::<E, C>::batch_from_pool,
            (pool, start_id, requests, callbacks),
            events,
        ),
        0 <= i < requests@.len(),
    ensures
        events@.len() == requests@.len(),
        events@[i].id == start_id + i,
        events@[i].data.connection_id == requests@[i].0,
        cloned(requests@[i].1, events@[i].data.timeout_event),
        cloned(callbacks@[i], events@[i].callback),
        stays(old(pool)@, requests@.len() as int, final(pool)@),
        final(pool).spec_config() == old(pool).spec_config(),
{
}

/// A processor starts with a quarter of its pool filled and nothing counted.
pub proof fn law_processor_starts_as_asked_for<E: EventDataTrait>(
    pool_size: usize,
    threshold: usize,
    processor: OptimizedBatchProcessor<E>,
)
    requires
        call_ensures(OptimizedBatchProcessor::<E>::new, (pool_size, threshold), processor),
    ensures
        processor.pool_config().max_size == pool_size,
        processor.pool_config().initial_size == processor.pooled().len(),
        processor.pool_config().enable_batch_optimization,
        4 * processor.pooled().len() <= pool_size < 4 * processor.pooled().len() + 4,
        processor.threshold() == threshold,
        processor.spec_counts().processed == 0,
        processor.spec_counts().small_batches == 0,
        processor.spec_counts().large_batches == 0,
{
}

/// A processor makes the data of each request. The batch counts as large from the
/// threshold on, and as small below it; its events are counted either way.
pub proof fn law_processor_makes_what_is_asked_for<E: EventDataTrait>(
    processor: &mut OptimizedBatchProcessor<E>,
    requests: &[(ConnectionId, E)],
    data: Vec<TimerEventData<E>>,
)
    requires
        call_ensures(
            OptimizedBatchProcessor::<E>::create_events_optimized,
            (processor, requests),
            data,
        ),
    ensures
        one_for_each(data@, requests@),
        stays(old(processor).pooled(), requests@.len() as int, final(processor).pooled()),
        final(processor).pool_config() == old(processor).pool_config(),
        final(processor).threshold() == old(processor).threshold(),
        old(processor).spec_counts().processed + requests@.len() <= usize::MAX ==> final(
            processor).spec_counts().processed == old(processor).spec_counts().processed
            + requests@.len(),
        requests@.len() >= old(processor).threshold() ==> final(
            processor).spec_counts().small_batches == old(processor).spec_counts().small_batches
            && (old(processor).spec_counts().large_batches < usize::MAX ==> final(
            processor).spec_counts().large_batches == old(processor).spec_counts().large_batches
            + 1),
        requests@.len() < old(processor).threshold() ==> final(
            processor).spec_counts().large_batches == old(processor).spec_counts().large_batches
            && (old(processor).spec_counts().small_batches < usize::MAX ==> final(
            processor).spec_counts().small_batches == old(processor).spec_counts().small_batches
            + 1),
{
    assert(requests@.len() == requests.len());
}

/// Data that is given back to a processor goes to its pool and is counted nowhere.
pub proof fn law_processor_takes_data_back<E: EventDataTrait>(
    processor: &mut OptimizedBatchProcessor<E>,
    events: Vec<TimerEventData<E>>,
)
    requires
        call_ensures(OptimizedBatchProcessor::<E>::process_completed, (processor, events), ()),
    ensures
        comes_back(
            old(processor).pooled(),
            old(processor).pool_config().max_size as int,
            events@,
            final(processor).pooled(),
        ),
        final(processor).pool_config() == old(processor).pool_config(),
        final(processor).threshold() == old(processor).threshold(),
        final(processor).spec_counts() == old(processor).spec_counts(),
{
    lemma_comes_back(
        old(processor).pooled(),
        old(processor).pool_config().max_size as int,
        events@,
    );
}

/// A processor tells its counts and the state of its pool.
pub proof fn law_processor_tells_its_figures<E: EventDataTrait>(
    processor: OptimizedBatchProcessor<E>,
    stats: (BatchCounts, PoolStats),
)
    requires
        call_ensures(
            OptimizedBatchProcessor::<E>::get_performance_stats,
            (&processor,),
            stats,
        ),
    ensures
        stats.0 == processor.spec_counts(),
        stats.1.current_size == processor.pooled().len(),
        stats.1.max_size == processor.pool_config().max_size,
        stats.1.initial_size == processor.pool_config().initial_size,
{
}

/// Events that are given back to a dispatcher go to its pool; its slots stay as they are.
pub proof fn law_dispatcher_takes_events_back<E: EventDataTrait>(
    dispatcher: &mut SmartZeroCopyDispatcher<E>,
    events: Vec<TimerEventData<E>>,
    after: &OptimizedBatchProcessor<E>,
)
    requires
        call_ensures(
            SmartZeroCopyDispatcher::<E>::batch_return_to_pool,
            (dispatcher, events),
            (),
        ),
        call_ensures(
            SmartZeroCopyDispatcher::<E>::batch_processor,
            (&*final(dispatcher),),
            after,
        ),
    ensures
        comes_back(
            old(dispatcher).processor().pooled(),
            old(dispatcher).processor().pool_config().max_size as int,
            events@,
            after.pooled(),
        ),
        final(dispatcher)@ == old(dispatcher)@,
        after.pool_config() == old(dispatcher).processor().pool_config(),
        after.threshold() == old(dispatcher).processor().threshold(),
        after.spec_counts() == old(dispatcher).processor().spec_counts(),
{
    lemma_comes_back(
        old(dispatcher).processor().pooled(),
        old(dispatcher).processor().pool_config().max_size as int,
        events@,
    );
}

/// A new manager has no pools.
pub proof fn law_manager_starts_without_pools<E: EventDataTrait>(
    config: PoolConfig,
    manager: PoolManager<E>,
)
    requires
        call_ensures(PoolManager::<E>::new, (config,), manager),
    ensures
        manager.kinds().len() == 0,
        manager.pools().len() == 0,
        manager.spec_default_config() == config,
{
}

/// A manager makes one pool for each kind, by its default configuration and the first
/// time that it is asked for; all pools that it has stay as they are.
pub proof fn law_manager_makes_a_pool_once<E: EventDataTrait>(
    manager: &mut PoolManager<E>,
    kind: u64,
    position: usize,
)
    requires
        old(manager).wf(),
        call_ensures(PoolManager::<E>::get_or_create_pool, (manager, kind), position),
    ensures
        final(manager).wf(),
        position < final(manager).kinds().len(),
        final(manager).kinds()[position as int] == kind,
        old(manager).kinds().is_prefix_of(final(manager).kinds()),
        old(manager).pools().is_prefix_of(final(manager).pools()),
        (exists|i: int|
            0 <= i < old(manager).kinds().len() && #[trigger] old(manager).kinds()[i] == kind)
            ==> final(manager).kinds().len() == old(manager).kinds().len() && position < old(
            manager).kinds().len(),
        (forall|i: int|
            0 <= i < old(manager).kinds().len() ==> #[trigger] old(manager).kinds()[i] != kind)
            ==> {
            &&& position == old(manager).kinds().len()
            &&& final(manager).kinds().len() == position + 1
            &&& final(manager).pools()[position as int].spec_config() == old(
                manager).spec_default_config()
            &&& final(manager).pools()[position as int]@.len() == old(
                manager).spec_default_config().initial_size
        },
        final(manager).spec_default_config() == old(manager).spec_default_config(),
{
    old(manager).law_one_pool_for_each_kind();
    if old(manager).kinds().contains(kind) {
        let i = old(manager).kinds().index_of(kind);
        assert(old(manager).kinds()[i] == kind);
        assert(old(manager).kinds().is_prefix_of(old(manager).kinds()));
        assert(old(manager).pools().is_prefix_of(old(manager).pools()));
    } else {
        assert(old(manager).kinds().push(kind).take(old(manager).kinds().len() as int) =~= old(
            manager).kinds());
        assert(final(manager).pools().take(old(manager).pools().len() as int) =~= old(
            manager).pools());
        if position < old(manager).kinds().len() {
            assert(old(manager).kinds()[position as int] == kind);
        }
    }
}

/// The same kind leads to the same pool, also after another kind was asked for.
pub proof fn law_manager_finds_a_pool_again<E: EventDataTrait>(
    manager: &mut PoolManager<E>,
    kind: u64,
    position: usize,
    second: &mut PoolManager<E>,
    other: u64,
    elsewhere: usize,
    third: &mut PoolManager<E>,
    again: usize,
)
    requires
        old(manager).wf(),
        call_ensures(PoolManager::<E>::get_or_create_pool, (manager, kind), position),
        *old(second) == *final(manager),
        call_ensures(PoolManager::<E>::get_or_create_pool, (second, other), elsewhere),
        *old(third) == *final(second),
        call_ensures(PoolManager::<E>::get_or_create_pool, (third, kind), again),
    ensures
        again == position,
        other != kind ==> elsewhere != position,
{
    law_manager_makes_a_pool_once(manager, kind, position);
    law_manager_makes_a_pool_once(second, other, elsewhere);
    law_manager_makes_a_pool_once(third, kind, again);
    old(third).law_one_pool_for_each_kind();
    final(third).law_one_pool_for_each_kind();
    assert(final(second).kinds()[position as int] == kind);
    assert(final(third).kinds()[position as int] == kind);
    assert(final(third).kinds()[again as int] == kind);
    assert(final(second).kinds()[elsewhere as int] == other);
}

/// A manager tells the figures of the pool of a kind, and nothing of a kind without one.
pub proof fn law_manager_tells_the_figures_of_a_pool<E: EventDataTrait>(
    manager: PoolManager<E>,
    kind: u64,
    stats: Option<PoolStats>,
    i: int,
)
    requires
        manager.wf(),
        call_ensures(PoolManager::<E>::get_pool_stats, (&manager, kind), stats),
        0 <= i < manager.kinds().len(),
        manager.pools()[i]@.len() <= usize::MAX,
    ensures
        manager.kinds()[i] == kind ==> stats is Some && stats->0.current_size
            == manager.pools()[i]@.len() && stats->0.max_size
            == manager.pools()[i].spec_config().max_size && stats->0.initial_size
            == manager.pools()[i].spec_config().initial_size,
        stats is Some ==> exists|j: int|
            0 <= j < manager.kinds().len() && #[trigger] manager.kinds()[j] == kind,
{
    manager.law_one_pool_for_each_kind();
    if manager.kinds()[i] == kind {
        assert(manager.kinds().contains(kind));
        assert(manager.kinds().index_of(kind) == i);
    }
}

/// What is done with the pool at a position changes that pool alone.
pub proof fn law_pool_is_used_in_its_place<E: EventDataTrait>(
    manager: &mut PoolManager<E>,
    position: usize,
    pool: &mut TimerEventPool<E>,
)
    requires
        old(manager).wf(),
        position < old(manager).kinds().len(),
        call_ensures(PoolManager::<E>::pool_mut, (manager, position), pool),
    ensures
        *old(pool) == old(manager).pools()[position as int],
        final(manager).pools()[position as int] == *final(pool),
        final(manager).kinds() == old(manager).kinds(),
        forall|i: int|
            0 <= i < old(manager).pools().len() && i != position ==> #[trigger] final(
                manager).pools()[i] == old(manager).pools()[i],
        final(manager).spec_default_config() == old(manager).spec_default_config(),
{
    old(manager).law_one_pool_for_each_kind();
}

/// Events up to 64 bytes that need not be dropped are copied; all others are pooled.
pub proof fn law_large_or_dropped_events_are_pooled(
    size: usize,
    drops: bool,
    small: bool,
    pooled: bool,
)
    requires
        call_ensures(is_copy_like_type, (size, drops), small),
        call_ensures(should_pool_type, (size, drops), pooled),
    ensures
        size > 64 ==> pooled,
        drops ==> pooled,
        size <= 64 && !drops ==> !pooled,
        small <==> !pooled,
{
}

/// A factory makes the data that it is asked for, and for events of more than 64 bytes
/// it uses a pool.
pub proof fn law_factory_makes_what_is_asked_for<E: EventDataTrait>(
    factory: EventFactory<E>,
    connection_id: ConnectionId,
    timeout_event: E,
    data: TimerEventData<E>,
    requests: &[(ConnectionId, E)],
    batch: Vec<TimerEventData<E>>,
    pooled: bool,
    small: bool,
)
    requires
        call_ensures(
            EventFactory::<E>::create_event,
            (&factory, connection_id, timeout_event),
            data,
        ),
        call_ensures(EventFactory::<E>::batch_create_events, (&factory, requests), batch),
        call_ensures(EventFactory::<E>::should_use_pool, (&factory,), pooled),
        call_ensures(EventFactory::<E>::is_copy_like, (&factory,), small),
    ensures
        data.connection_id == connection_id,
        data.timeout_event == timeout_event,
        one_for_each(batch@, requests@),
        vstd::layout::size_of::<E>() > 64 ==> pooled && !small,
        vstd::layout::size_of::<E>() <= 64 ==> traits::drop_answer::<E>(pooled)
            && traits::drop_answer::<E>(!small),
{
}

/// With a pool, a factory makes the same data. Large events use the pool up; small
/// ones do so where `needs_drop` says that they have to be dropped.
pub proof fn law_factory_uses_a_pool_for_large_events<E: EventDataTrait>(
    factory: EventFactory<E>,
    pool: &mut TimerEventPool<E>,
    connection_id: ConnectionId,
    timeout_event: E,
    data: TimerEventData<E>,
)
    requires
        call_ensures(
            EventFactory::<E>::create_with_pool,
            (&factory, pool, connection_id, timeout_event),
            data,
        ),
    ensures
        data.connection_id == connection_id,
        data.timeout_event == timeout_event,
        final(pool).spec_config() == old(pool).spec_config(),
        vstd::layout::size_of::<E>() > 64 ==> stays(old(pool)@, 1, final(pool)@),
        vstd::layout::size_of::<E>() <= 64 ==> (traits::drop_answer::<E>(true) && stays(
            old(pool)@,
            1,
            final(pool)@,
        )) || (traits::drop_answer::<E>(false) && final(pool)@ == old(pool)@),
{
}

/// With a pool, a factory makes the same batch. Large events use the pool up; small
/// ones do so where `needs_drop` says that they have to be dropped.
pub proof fn law_factory_uses_a_pool_for_batches_of_large_events<E: EventDataTrait>(
    factory: EventFactory<E>,
    pool: &mut TimerEventPool<E>,
    requests: &[(ConnectionId, E)],
    data: Vec<TimerEventData<E>>,
)
    requires
        call_ensures(
            EventFactory::<E>::batch_create_with_pool,
            (&factory, pool, requests),
            data,
        ),
    ensures
        one_for_each(data@, requests@),
        final(pool).spec_config() == old(pool).spec_config(),
        vstd::layout::size_of::<E>() > 64 ==> stays(
            old(pool)@,
            requests@.len() as int,
            final(pool)@,
        ),
        vstd::layout::size_of::<E>() <= 64 ==> (traits::drop_answer::<E>(true) && stays(
            old(pool)@,
            requests@.len() as int,
            final(pool)@,
        )) || (traits::drop_answer::<E>(false) && final(pool)@ == old(pool)@),
{
}

/// A factory gives large events back to the pool, and small ones where `needs_drop` says
/// that they have to be dropped.
pub proof fn law_factory_gives_large_events_back<E: EventDataTrait>(
    factory: EventFactory<E>,
    pool: &mut TimerEventPool<E>,
    event: TimerEventData<E>,
)
    requires
        call_ensures(EventFactory::<E>::return_to_pool, (&factory, event, pool), ()),
    ensures
        final(pool).spec_config() == old(pool).spec_config(),
        vstd::layout::size_of::<E>() > 64 ==> comes_back(
            old(pool)@,
            old(pool).spec_config().max_size as int,
            seq![event],
            final(pool)@,
        ),
        vstd::layout::size_of::<E>() <= 64 ==> (traits::drop_answer::<E>(true) && comes_back(
            old(pool)@,
            old(pool).spec_config().max_size as int,
            seq![event],
            final(pool)@,
        )) || (traits::drop_answer::<E>(false) && final(pool)@ == old(pool)@),
{
    let pooled = old(pool)@;
    lemma_comes_back(pooled, old(pool).spec_config().max_size as int, seq![event]);
    assert(pooled + seq![event].take(1) =~= pooled.push(event));
    assert(pooled + seq![event].take(0) =~= pooled);
}

/// A factory gives batches of large events back to the pool, and small ones where
/// `needs_drop` says that they have to be dropped.
pub proof fn law_factory_gives_batches_of_large_events_back<E: EventDataTrait>(
    factory: EventFactory<E>,
    pool: &mut TimerEventPool<E>,
    events: Vec<TimerEventData<E>>,
)
    requires
        call_ensures(EventFactory::<E>::batch_return_to_pool, (&factory, events, pool), ()),
    ensures
        final(pool).spec_config() == old(pool).spec_config(),
        vstd::layout::size_of::<E>() > 64 ==> comes_back(
            old(pool)@,
            old(pool).spec_config().max_size as int,
            events@,
            final(pool)@,
        ),
        vstd::layout::size_of::<E>() <= 64 ==> (traits::drop_answer::<E>(true) && comes_back(
            old(pool)@,
            old(pool).spec_config().max_size as int,
            events@,
            final(pool)@,
        )) || (traits::drop_answer::<E>(false) && final(pool)@ == old(pool)@),
{
    lemma_comes_back(old(pool)@, old(pool).spec_config().max_size as int, events@);
}

/// Both strategies make the data that they are asked for. Copies are never pooled;
/// clones of more than 64 bytes always are.
pub proof fn law_strategies_make_what_is_asked_for<E: EventDataTrait + Copy>(
    connection_id: ConnectionId,
    timeout_event: E,
    copy: TimerEventData<E>,
    clone: TimerEventData<E>,
    requests: &[(ConnectionId, E)],
    copies: Vec<TimerEventData<E>>,
    clones: Vec<TimerEventData<E>>,
    copy_pooled: bool,
    clone_pooled: bool,
)
    requires
        call_ensures(
            <CopyStrategy as EventCreationStrategy<E>>::create_single,
            (connection_id, timeout_event),
            copy,
        ),
        call_ensures(
            <CloneStrategy as EventCreationStrategy<E>>::create_single,
            (connection_id, timeout_event),
            clone,
        ),
        call_ensures(
            <CopyStrategy as EventCreationStrategy<E>>::create_batch,
            (requests,),
            copies,
        ),
        call_ensures(
            <CloneStrategy as EventCreationStrategy<E>>::create_batch,
            (requests,),
            clones,
        ),
        call_ensures(
            <CopyStrategy as EventCreationStrategy<E>>::should_use_pool,
            (),
            copy_pooled,
        ),
        call_ensures(
            <CloneStrategy as EventCreationStrategy<E>>::should_use_pool,
            (),
            clone_pooled,
        ),
    ensures
        copy.connection_id == connection_id,
        copy.timeout_event == timeout_event,
        clone == copy,
        copies@.len() == requests@.len(),
        forall|i: int|
            0 <= i < copies@.len() ==> (#[trigger] copies@[i]).connection_id == requests@[i].0
                && copies@[i].timeout_event == requests@[i].1,
        one_for_each(clones@, requests@),
        !copy_pooled,
        vstd::layout::size_of::<E>() > 64 ==> clone_pooled,
        vstd::layout::size_of::<E>() <= 64 ==> traits::drop_answer::<E>(clone_pooled),
{
}

/// A handler hands each event to the closure that it was made with, and the count of a
/// batch is the number of events that the closure takes.
pub proof fn law_handler_counts_what_its_closure_takes<E, F: Fn(&TimerEventData<E>) -> bool>(
    closure: F,
    handler: RefEventHandler<E, F>,
    event: &TimerEventData<E>,
    delivered: bool,
    event_refs: &[&TimerEventData<E>],
    count: usize,
    wanted: spec_fn(TimerEventData<E>) -> bool,
)
    requires
        call_ensures(RefEventHandler::<E, F>::new, (closure,), handler),
        forall|e: &TimerEventData<E>, taken: bool| #[trigger]
            call_ensures(closure, (e,), taken) ==> taken == wanted(*e),
        call_ensures(
            <RefEventHandler<E, F> as ZeroCopyEventDelivery<E>>::deliver_event_ref,
            (&handler, event),
            delivered,
        ),
        call_ensures(
            <RefEventHandler<E, F> as ZeroCopyEventDelivery<E>>::batch_deliver_event_refs,
            (&handler, event_refs),
            count,
        ),
    ensures
        delivered == wanted(*event),
        count == event_refs@.filter(|e: &TimerEventData<E>| wanted(*e)).len(),
{
    assert(handler.may_deliver(*event, delivered));
    let singles = event_refs@.map_values(|e: &TimerEventData<E>| wanted(*e));
    let outcomes = choose|outcomes: Seq<bool>|
        {
            &&& outcomes.len() == event_refs@.len()
            &&& forall|i: int|
                0 <= i < outcomes.len() ==> handler.may_deliver(
                    *event_refs@[i],
                    #[trigger] outcomes[i],
                )
            &&& count == #[trigger] zero_copy::successes(outcomes)
        };
    assert(outcomes =~= singles) by {
        assert forall|i: int| 0 <= i < outcomes.len() implies outcomes[i] == singles[i] by {
            assert(handler.may_deliver(*event_refs@[i], outcomes[i]));
        }
    }
    zero_copy::law_batch_delivers_like_single_deliveries(
        handler,
        wanted,
        event_refs@,
        count,
        outcomes,
    );
}

/// An event without further notice is an idle timeout.
pub proof fn law_default_event_is_an_idle_timeout(event: TimeoutEvent)
    requires
        call_ensures(TimeoutEvent::default, (), event),
    ensures
        event is IdleTimeout,
{
}

/// A run of benchmarks goes through growing sizes a hundred times.
pub proof fn law_benchmarks_cover_growing_sizes(config: BenchConfig)
    requires
        call_ensures(BenchConfig::default, (), config),
    ensures
        config.iterations == 100,
        config.batch_sizes@ == seq![32usize, 128, 512, 2048, 8192],
        config.dispatcher_counts@ == seq![1usize, 4, 8, 16],
        config.slot_counts@ == seq![64usize, 256, 1024, 4096],
{
}

} // verus!
