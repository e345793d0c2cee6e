//! Ring buffers for timer events, and a dispatcher that spreads events over several.

use vstd::prelude::*;

use crate::outside::BoundedQueue;
use crate::timer::event::TimerEventData;

verus! {

/// The smaller of two numbers.
pub open spec fn smaller(a: int, b: int) -> int {
    if a <= b {
        a
    } else {
        b
    }
}

/// A bounded buffer of events, first in first out.
#[verifier::reject_recursive_types(E)]
pub struct RingBuffer<E> {
    queue: BoundedQueue<TimerEventData<E>>,
    capacity: usize,
}

impl<E> View for RingBuffer<E> {
    type V = Seq<TimerEventData<E>>;

    closed spec fn view(&self) -> Seq<TimerEventData<E>> {
        self.queue.contents()
    }
}

/// The part of `events` that fits behind `contents` in a buffer of `capacity`.
pub open spec fn fitting<T>(contents: Seq<T>, capacity: int, events: Seq<T>) -> Seq<T> {
    events.take(smaller(events.len() as int, capacity - contents.len()))
}

impl<E> RingBuffer<E> {
    /// The buffer never holds more than its capacity.
    pub closed spec fn wf(&self) -> bool {
        &&& self.queue.limit() == self.capacity
        &&& self.capacity > 0
        &&& self.queue.contents().len() <= self.capacity
    }

    pub closed spec fn spec_capacity(&self) -> usize {
        self.capacity
    }

    /// A buffer never holds more than its capacity.
    pub proof fn law_never_overfull(&self)
        requires
            self.wf(),
        ensures
            self@.len() <= self.spec_capacity(),
            self.spec_capacity() > 0,
    {
    }

    /// An empty buffer for `capacity` events, and for one at least.
    pub fn new(capacity: usize) -> (buffer: Self)
        requires
            capacity <= isize::MAX,
        ensures
            buffer.wf(),
            buffer@ == Seq::<TimerEventData<E>>::empty(),
            buffer.spec_capacity() == (if capacity == 0 {
                1
            } else {
                capacity
            }),
    {
        let capacity: usize = if capacity == 0 {
            1
        } else {
            capacity
        };
        RingBuffer { queue: BoundedQueue::new(capacity), capacity }
    }

    /// Adds an event, or hands it back where the buffer is full.
    pub fn try_write(&mut self, event: TimerEventData<E>) -> (result: Result<
        (),
        TimerEventData<E>,
    >)
        requires
            old(self).wf(),
        ensures
            final(self).wf(),
            final(self).spec_capacity() == old(self).spec_capacity(),
            match result {
                Ok(_) => {
                    &&& old(self)@.len() < old(self).spec_capacity()
                    &&& final(self)@ == old(self)@.push(event)
                },
                Err(rejected) => {
                    &&& old(self)@.len() == old(self).spec_capacity()
                    &&& final(self)@ == old(self)@
                    &&& rejected == event
                },
            },
    {
        self.queue.push(event)
    }

    /// Takes the oldest event.
    pub fn try_read(&mut self) -> (event: Option<TimerEventData<E>>)
        requires
            old(self).wf(),
        ensures
            final(self).wf(),
            final(self).spec_capacity() == old(self).spec_capacity(),
            match event {
                Some(e) => {
                    &&& old(self)@.len() > 0
                    &&& e == old(self)@[0]
                    &&& final(self)@ == old(self)@.skip(1)
                },
                None => old(self)@.len() == 0 && final(self)@ == old(self)@,
            },
    {
        self.queue.pop()
    }

    /// Adds events until the buffer is full, and says how many found room.
    pub fn batch_write(&mut self, events: Vec<TimerEventData<E>>) -> (written: usize)
        requires
            old(self).wf(),
        ensures
            final(self).wf(),
            final(self).spec_capacity() == old(self).spec_capacity(),
            written == fitting(old(self)@, old(self).spec_capacity() as int, events@).len(),
            final(self)@ == old(self)@ + fitting(
                old(self)@,
                old(self).spec_capacity() as int,
                events@,
            ),
    {
        let ghost all = events@;
        let ghost before = self@;
        let mut written: usize = 0;
        let mut full = false;
        for event in iter: events
            invariant
                iter.seq() == all,
                self.wf(),
                self.capacity == old(self).capacity,
                before.len() <= self.capacity,
                self@ == before + all.take(written as int),
                full ==> self@.len() == self.capacity && written < all.len(),
                !full ==> written == iter.index(),
                written <= all.len(),
        {
            if !full {
                match self.queue.push(event) {
                    Ok(_) => {
                        assert(all.take(written + 1) =~= all.take(written as int).push(event));
                        written = written + 1;
                    },
                    Err(_) => {
                        full = true;
                    },
                }
            }
        }
        written
    }

    /// Takes up to `max_events` of the oldest events.
    pub fn batch_read(&mut self, max_events: usize) -> (events: Vec<TimerEventData<E>>)
        requires
            old(self).wf(),
        ensures
            final(self).wf(),
            final(self).spec_capacity() == old(self).spec_capacity(),
            events@ == old(self)@.take(smaller(max_events as int, old(self)@.len() as int)),
            final(self)@ == old(self)@.skip(events@.len() as int),
    {
        let ghost before = self@;
        let mut events: Vec<TimerEventData<E>> = Vec::new();
        let mut i: usize = 0;
        let mut empty = false;
        while i < max_events && !empty
            invariant
                self.wf(),
                self.capacity == old(self).capacity,
                i <= max_events,
                events@.len() <= before.len(),
                events@ == before.take(events@.len() as int),
                self@ == before.skip(events@.len() as int),
                empty ==> events@.len() == before.len() && events@.len() <= max_events,
                !empty ==> events@.len() == i,
            decreases max_events - i,
        {
            match self.queue.pop() {
                Some(event) => {
                    events.push(event);
                    assert(events@ =~= before.take(events@.len() as int));
                    assert(self@ =~= before.skip(events@.len() as int));
                },
                None => {
                    empty = true;
                },
            }
            i = i + 1;
        }
        events
    }

    pub fn is_empty(&self) -> (empty: bool)
        ensures
            empty == (self@.len() == 0),
    {
        self.queue.len() == 0
    }

    pub fn is_full(&self) -> (full: bool)
        requires
            self.wf(),
        ensures
            full == (self@.len() == self.spec_capacity()),
    {
        self.queue.len() == self.capacity
    }

    pub fn len(&self) -> (n: usize)
        ensures
            n == self@.len(),
    {
        self.queue.len()
    }

    pub fn capacity(&self) -> (n: usize)
        ensures
            n == self.spec_capacity(),
    {
        self.capacity
    }
}

/// What is read from a buffer is what was written to it, in the same order: a
/// batch written behind `contents` and then read out together with them comes
/// out behind them, as far as it found room.
pub proof fn law_reads_give_back_writes<E>(
    contents: Seq<TimerEventData<E>>,
    capacity: int,
    batch: Seq<TimerEventData<E>>,
    first: nat,
    second: nat,
)
    requires
        contents.len() <= capacity,
        first + second >= capacity,
    ensures
        ({
            let held = contents + fitting(contents, capacity, batch);
            let one = held.take(smaller(first as int, held.len() as int));
            let left = held.skip(one.len() as int);
            let two = left.take(smaller(second as int, left.len() as int));
            one + two == contents + fitting(contents, capacity, batch)
        }),
{
    let held = contents + fitting(contents, capacity, batch);
    let one = held.take(smaller(first as int, held.len() as int));
    let left = held.skip(one.len() as int);
    let two = left.take(smaller(second as int, left.len() as int));
    assert(held.len() <= capacity);
    assert(one + two =~= held);
}

/// How many buffers behind the first are looked at for the least used one.
pub const CHECKED_BUFFERS: usize = 3;

/// Whether `best` is the first of the buffers at `start`, `start + 1` and so on
/// up to `start + ahead`, counted round the ring, that holds the fewest events.
pub open spec fn least_used<T>(
    buffers: Seq<Seq<T>>,
    start: int,
    ahead: int,
    best: int,
) -> bool {
    exists|d: int|
        {
            &&& 0 <= d <= ahead
            &&& best == #[trigger] nth(buffers.len() as int, start, d)
            &&& forall|j: int|
                0 <= j <= ahead ==> buffers[best].len() <= buffers[#[trigger] nth(
                    buffers.len() as int,
                    start,
                    j,
                )].len()
            &&& forall|j: int|
                0 <= j < d ==> buffers[best].len() < buffers[#[trigger] nth(
                    buffers.len() as int,
                    start,
                    j,
                )].len()
        }
}

/// The position `d` places behind `start` on a ring of `n`.
pub open spec fn nth(n: int, start: int, d: int) -> int {
    (start + d) % n
}

/// The number of events in all buffers.
pub open spec fn total<T>(buffers: Seq<Seq<T>>) -> nat
    decreases buffers.len(),
{
    if buffers.len() == 0 {
        0
    } else {
        total(buffers.drop_last()) + buffers.last().len()
    }
}

/// `buffers`, each of `capacity`, with the part of `batch` that fits behind the
/// events in the buffer `i`.
pub open spec fn written_to<T>(
    buffers: Seq<Seq<T>>,
    capacity: int,
    i: int,
    batch: Seq<T>,
) -> Seq<Seq<T>> {
    buffers.update(i, buffers[i] + fitting(buffers[i], capacity, batch))
}

/// The first `max` events of each buffer, one buffer behind the other.
pub open spec fn heads<T>(buffers: Seq<Seq<T>>, max: int) -> Seq<T>
    decreases buffers.len(),
{
    if buffers.len() == 0 {
        Seq::empty()
    } else {
        heads(buffers.drop_last(), max) + buffers.last().take(
            smaller(max, buffers.last().len() as int),
        )
    }
}

/// `buffers` without the first `max` events of each.
pub open spec fn tails<T>(buffers: Seq<Seq<T>>, max: int) -> Seq<Seq<T>> {
    buffers.map_values(|b: Seq<T>| b.skip(smaller(max, b.len() as int)))
}

/// The state of a dispatcher.
#[verifier::ext_equal]
pub struct DispatcherState<E> {
    /// What each buffer holds.
    pub buffers: Seq<Seq<TimerEventData<E>>>,
    /// How much each buffer can hold.
    pub capacity: int,
    /// The buffer that is looked at first.
    pub index: int,
    /// Events that found room so far, as a counter of machine width.
    pub dispatched: usize,
    /// Events that found none.
    pub rejected: usize,
}

/// Gives each batch of events to the least used of a few ring buffers, which
/// are taken in turn.
#[verifier::reject_recursive_types(E)]
pub struct OptimizedZeroCopyDispatcher<E> {
    ring_buffers: Vec<RingBuffer<E>>,
    buffer_capacity: usize,
    dispatch_index: usize,
    total_dispatched: usize,
    total_rejected: usize,
}

impl<E> View for OptimizedZeroCopyDispatcher<E> {
    type V = DispatcherState<E>;

    closed spec fn view(&self) -> DispatcherState<E> {
        DispatcherState {
            buffers: self.ring_buffers@.map_values(|b: RingBuffer<E>| b@),
            capacity: self.buffer_capacity as int,
            index: self.dispatch_index as int,
            dispatched: self.total_dispatched,
            rejected: self.total_rejected,
        }
    }
}

impl<E> OptimizedZeroCopyDispatcher<E> {
    /// All buffers are in order and of one size.
    pub closed spec fn wf(&self) -> bool {
        &&& forall|i: int|
            0 <= i < self.ring_buffers@.len() ==> (#[trigger] self.ring_buffers@[i]).wf()
                && self.ring_buffers@[i].spec_capacity() == self.buffer_capacity
        &&& self.dispatch_index == 0 || self.dispatch_index < self.ring_buffers@.len()
    }

    /// No buffer is ever overfull, and the buffer to start with is one of them.
    pub proof fn law_buffers_stay_in_bounds(&self)
        requires
            self.wf(),
        ensures
            crate::timer::event::zero_copy::in_bounds(self@.buffers, self@.capacity),
            self@.buffers.len() > 0 ==> 0 <= self@.index < self@.buffers.len(),
    {
        assert forall|i: int| 0 <= i < self@.buffers.len() implies (
        #[trigger] self@.buffers[i]).len() <= self@.capacity by {
            assert(self.ring_buffers@[i].wf());
            self.ring_buffers@[i].law_never_overfull();
        }
    }

    /// A dispatcher over `dispatcher_count` empty buffers.
    pub fn new(buffer_capacity: usize, dispatcher_count: usize) -> (dispatcher: Self)
        requires
            buffer_capacity <= isize::MAX,
        ensures
            dispatcher.wf(),
            dispatcher@ == (DispatcherState {
                buffers: Seq::new(
                    dispatcher_count as nat,
                    |i: int| Seq::<TimerEventData<E>>::empty(),
                ),
                capacity: if buffer_capacity == 0 {
                    1
                } else {
                    buffer_capacity as int
                },
                index: 0,
                dispatched: 0,
                rejected: 0,
            }),
    {
        let mut ring_buffers: Vec<RingBuffer<E>> = Vec::with_capacity(dispatcher_count);
        let actual: usize = if buffer_capacity == 0 {
            1
        } else {
            buffer_capacity
        };
        let mut i: usize = 0;
        while i < dispatcher_count
            invariant
                i <= dispatcher_count,
                buffer_capacity <= isize::MAX,
                actual == (if buffer_capacity == 0 {
                    1
                } else {
                    buffer_capacity
                }),
                ring_buffers@.len() == i,
                forall|k: int|
                    0 <= k < i ==> (#[trigger] ring_buffers@[k]).wf()
                        && ring_buffers@[k].spec_capacity() == actual && ring_buffers@[k]@
                        == Seq::<TimerEventData<E>>::empty(),
            decreases dispatcher_count - i,
        {
            ring_buffers.push(RingBuffer::new(buffer_capacity));
            i = i + 1;
        }
        let dispatcher = OptimizedZeroCopyDispatcher {
            ring_buffers,
            buffer_capacity: actual,
            dispatch_index: 0,
            total_dispatched: 0,
            total_rejected: 0,
        };
        assert(dispatcher@.buffers =~= Seq::new(
            dispatcher_count as nat,
            |i: int| Seq::<TimerEventData<E>>::empty(),
        ));
        dispatcher
    }

    /// The least used of the buffer at the dispatch index and the few behind it.
    fn choose_buffer(&self) -> (best: usize)
        requires
            self.wf(),
            self.ring_buffers@.len() > 0,
        ensures
            best < self.ring_buffers@.len(),
            least_used(
                self@.buffers,
                self@.index,
                smaller(CHECKED_BUFFERS as int, self@.buffers.len() as int),
                best as int,
            ),
    {
        let count = self.ring_buffers.len();
        let ghost n = count as int;
        let ghost start = self.dispatch_index as int;
        let ghost buffers = self@.buffers;
        let mut best: usize = self.dispatch_index;
        let mut idx: usize = self.dispatch_index;
        let limit: usize = if count < CHECKED_BUFFERS {
            count
        } else {
            CHECKED_BUFFERS
        };
        let mut i: usize = 0;
        let ghost mut d: int = 0;
        proof {
            vstd::arithmetic::div_mod::lemma_small_mod(start as nat, n as nat);
            assert(nth(n, start, 0) == start);
        }
        while i < limit
            invariant
                self.wf(),
                n == count,
                count == self.ring_buffers@.len(),
                count > 0,
                buffers == self@.buffers,
                start == self.dispatch_index,
                limit <= count,
                i <= limit,
                idx < count,
                best < count,
                idx == nth(n, start, i as int),
                0 <= d <= i,
                best == nth(n, start, d),
                forall|j: int|
                    0 <= j <= i ==> buffers[best as int].len() <= buffers[#[trigger] nth(
                        n,
                        start,
                        j,
                    )].len(),
                forall|j: int|
                    0 <= j < d ==> buffers[best as int].len() < buffers[#[trigger] nth(
                        n,
                        start,
                        j,
                    )].len(),
            decreases limit - i,
        {
            let ghost last = idx as int;
            idx = if idx + 1 < count {
                idx + 1
            } else {
                0
            };
            proof {
                lemma_nth_next(n, start, i as int);
            }
            if self.ring_buffers[idx].len() < self.ring_buffers[best].len() {
                best = idx;
                proof {
                    d = i + 1;
                }
            }
            i = i + 1;
        }
        proof {
            assert(best == nth(n, start, d));
        }
        best
    }

    /// Writes a batch to the least used of a few buffers, and says how many
    /// events found room. The rest is dropped.
    pub fn batch_dispatch_events(&mut self, events: Vec<TimerEventData<E>>) -> (dispatched: usize)
        requires
            old(self).wf(),
            events@.len() > 0 ==> old(self)@.buffers.len() > 0,
        ensures
            final(self).wf(),
            events@.len() == 0 ==> dispatched == 0 && final(self)@ == old(self)@,
            events@.len() > 0 ==> exists|best: int|
                {
                    &&& 0 <= best < old(self)@.buffers.len()
                    &&& #[trigger] least_used(
                        old(self)@.buffers,
                        old(self)@.index,
                        smaller(CHECKED_BUFFERS as int, old(self)@.buffers.len() as int),
                        best,
                    )
                    &&& dispatched == fitting(
                        old(self)@.buffers[best],
                        old(self)@.capacity,
                        events@,
                    ).len()
                    &&& final(self)@ == (DispatcherState {
                        buffers: written_to(
                            old(self)@.buffers,
                            old(self)@.capacity,
                            best,
                            events@,
                        ),
                        index: nth(old(self)@.buffers.len() as int, best, 1),
                        dispatched: old(self)@.dispatched.wrapping_add(dispatched),
                        rejected: old(self)@.rejected.wrapping_add(
                            (events@.len() - dispatched) as usize,
                        ),
                        ..old(self)@
                    })
                },
    {
        if events.len() == 0 {
            return 0;
        }
        let events_len = events.len();
        let ghost before = self@;
        let ghost batch = events@;
        let count = self.ring_buffers.len();
        let best = self.choose_buffer();
        let dispatched = self.ring_buffers[best].batch_write(events);
        self.total_dispatched = self.total_dispatched.wrapping_add(dispatched);
        self.total_rejected = self.total_rejected.wrapping_add(events_len - dispatched);
        self.dispatch_index = if best + 1 < count {
            best + 1
        } else {
            0
        };
        proof {
            vstd::arithmetic::div_mod::lemma_small_mod(best as nat, count as nat);
            lemma_nth_next(count as int, best as int, 0);
            assert(self@.buffers =~= written_to(
                before.buffers,
                before.capacity,
                best as int,
                batch,
            ));
        }
        dispatched
    }

    /// Takes up to `max_events_per_buffer` events from each buffer.
    pub fn batch_consume_events(&mut self, max_events_per_buffer: usize) -> (events: Vec<
        TimerEventData<E>,
    >)
        requires
            old(self).wf(),
        ensures
            final(self).wf(),
            events@ == heads(old(self)@.buffers, max_events_per_buffer as int),
            final(self)@ == (DispatcherState {
                buffers: tails(old(self)@.buffers, max_events_per_buffer as int),
                ..old(self)@
            }),
    {
        let ghost before = self@;
        let ghost max = max_events_per_buffer as int;
        let mut all_events: Vec<TimerEventData<E>> = Vec::new();
        let mut i: usize = 0;
        while i < self.ring_buffers.len()
            invariant
                self.wf(),
                i <= self.ring_buffers@.len(),
                self.ring_buffers@.len() == before.buffers.len(),
                max == max_events_per_buffer,
                self@ == (DispatcherState { buffers: self@.buffers, ..before }),
                all_events@ == heads(before.buffers.take(i as int), max),
                forall|k: int|
                    0 <= k < i ==> #[trigger] self.ring_buffers@[k]@ == tails(
                        before.buffers,
                        max,
                    )[k],
                forall|k: int|
                    i <= k < before.buffers.len() ==> #[trigger] self.ring_buffers@[k]@
                        == before.buffers[k],
            decreases self.ring_buffers@.len() - i,
        {
            let mut events = self.ring_buffers[i].batch_read(max_events_per_buffer);
            all_events.append(&mut events);
            assert(before.buffers.take(i + 1).drop_last() =~= before.buffers.take(i as int));
            i = i + 1;
        }
        assert(before.buffers.take(before.buffers.len() as int) =~= before.buffers);
        assert(self@.buffers =~= tails(before.buffers, max));
        all_events
    }

    /// The events that found room, those that did not, those that are held now,
    /// and how many could be held.
    pub fn get_stats(&self) -> (stats: (usize, usize, Vec<usize>, usize))
        requires
            self.wf(),
        ensures
            stats.0 == self@.dispatched,
            stats.1 == self@.rejected,
            stats.2@ == Seq::new(
                self@.buffers.len(),
                |i: int| self@.buffers[i].len() as usize,
            ),
            stats.3 == self@.capacity,
    {
        let mut lengths: Vec<usize> = Vec::new();
        let mut i: usize = 0;
        while i < self.ring_buffers.len()
            invariant
                i <= self.ring_buffers@.len(),
                lengths@ == Seq::new(i as nat, |k: int| self@.buffers[k].len() as usize),
            decreases self.ring_buffers@.len() - i,
        {
            lengths.push(self.ring_buffers[i].len());
            assert(lengths@ =~= Seq::new((i + 1) as nat, |k: int| self@.buffers[k].len() as usize));
            i = i + 1;
        }
        (self.total_dispatched, self.total_rejected, lengths, self.buffer_capacity)
    }
}

/// The next position on a ring.
pub(crate) proof fn lemma_nth_next(n: int, start: int, d: int)
    requires
        n > 0,
    ensures
        nth(n, start, d + 1) == (if nth(n, start, d) + 1 < n {
            nth(n, start, d) + 1
        } else {
            0
        }),
        0 <= nth(n, start, d) < n,
{
    let x = start + d;
    vstd::arithmetic::div_mod::lemma_add_mod_noop(x, 1, n);
    if x % n + 1 < n {
        if n > 1 {
            vstd::arithmetic::div_mod::lemma_small_mod(1, n as nat);
        }
        vstd::arithmetic::div_mod::lemma_small_mod((x % n + 1) as nat, n as nat);
    } else {
        vstd::arithmetic::div_mod::lemma_mod_self_0(n);
        if n > 1 {
            vstd::arithmetic::div_mod::lemma_small_mod(1, n as nat);
        }
    }
}

} // verus!
