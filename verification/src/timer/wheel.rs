//! A timing wheel.
//!
//! Time is cut into ticks of equal length, and the wheel has a ring of slots, one
//! per tick; a timer is kept in the slot of the tick in which it expires. Timers
//! that lie further ahead than one turn of the ring share slots with nearer
//! ones. Adding and cancelling look at one slot, and advancing the wheel looks
//! at the slots of the ticks that have gone by.

use std::collections::HashMap;
use vstd::prelude::*;

verus! {

broadcast use vstd::std_specs::hash::group_hash_axioms;

/// The number of slots of a default wheel.
pub const DEFAULT_SLOT_COUNT: usize = 512;

/// The tick of a default wheel, in nanoseconds.
pub const DEFAULT_SLOT_DURATION: u64 = 100_000_000;

/// A timer in the wheel.
#[derive(Debug, PartialEq, Eq)]
pub struct TimerEntry<T> {
    pub id: u64,
    /// The instant from which the timer is due.
    pub expiry_time: u64,
    pub event: T,
}

/// How full a wheel is.
#[derive(Clone, Copy, Debug, PartialEq, Eq, Structural)]
pub struct TimingWheelStats {
    pub total_slots: usize,
    pub non_empty_slots: usize,
    pub total_timers: usize,
}

/// The timers that are not due at `now`.
pub open spec fn not_due<T>(timers: Map<u64, TimerEntry<T>>, now: u64) -> Map<u64, TimerEntry<T>> {
    timers.restrict(
        Set::new(|id: u64| timers.contains_key(id) && timers[id].expiry_time > now),
    )
}

/// The timers that are due at `now`.
pub open spec fn due<T>(timers: Map<u64, TimerEntry<T>>, now: u64) -> Map<u64, TimerEntry<T>> {
    timers.restrict(
        Set::new(|id: u64| timers.contains_key(id) && timers[id].expiry_time <= now),
    )
}

/// `timers` with a batch of new ones: delays and events, under identifiers that
/// count up from `first`.
pub open spec fn with_batch<T>(
    timers: Map<u64, TimerEntry<T>>,
    first: u64,
    batch: Seq<(u64, T)>,
    now: u64,
) -> Map<u64, TimerEntry<T>> {
    Map::new(
        |id: u64| timers.contains_key(id) || first <= id < first + batch.len(),
        |id: u64|
            if first <= id < first + batch.len() {
                TimerEntry {
                    id,
                    expiry_time: (now + batch[id - first].0) as u64,
                    event: batch[id - first].1,
                }
            } else {
                timers[id]
            },
    )
}

/// Whether `entries` lists the timers of `timers`, each once.
pub open spec fn enumerates<T>(
    entries: Seq<TimerEntry<T>>,
    timers: Map<u64, TimerEntry<T>>,
) -> bool {
    &&& distinct(entries)
    &&& forall|i: int|
        0 <= i < entries.len() ==> timers.contains_key((#[trigger] entries[i]).id)
            && timers[entries[i].id] == entries[i]
    &&& forall|id: u64| #[trigger] timers.contains_key(id) ==> lists(entries, id)
}

/// No identifier occurs twice.
pub open spec fn distinct<T>(entries: Seq<TimerEntry<T>>) -> bool {
    forall|i: int, j: int|
        0 <= i < j < entries.len() ==> (#[trigger] entries[i]).id != (#[trigger] entries[j]).id
}

/// Whether the timer `id` is among `entries`.
pub open spec fn lists<T>(entries: Seq<TimerEntry<T>>, id: u64) -> bool {
    exists|i: int| 0 <= i < entries.len() && (#[trigger] entries[i]).id == id
}

/// The number of lists that are not empty.
spec fn non_empty<T>(slots: Seq<Vec<TimerEntry<T>>>) -> nat
    decreases slots.len(),
{
    if slots.len() == 0 {
        0
    } else {
        non_empty(slots.drop_last()) + if slots.last()@.len() > 0 {
            1nat
        } else {
            0nat
        }
    }
}

/// The positions of the lists that are not empty.
spec fn non_empty_slots<T>(slots: Seq<Vec<TimerEntry<T>>>) -> Set<int> {
    Set::new(|s: int| 0 <= s < slots.len() && slots[s]@.len() > 0)
}

proof fn lemma_non_empty<T>(slots: Seq<Vec<TimerEntry<T>>>)
    ensures
        non_empty_slots(slots).finite(),
        non_empty_slots(slots).len() == non_empty(slots),
    decreases slots.len(),
{
    if slots.len() == 0 {
        assert(non_empty_slots(slots) =~= Set::empty());
    } else {
        let front = slots.drop_last();
        lemma_non_empty(front);
        let last = slots.len() - 1;
        assert(!non_empty_slots(front).contains(last));
        if slots.last()@.len() > 0 {
            assert(non_empty_slots(slots) =~= non_empty_slots(front).insert(last));
        } else {
            assert(non_empty_slots(slots) =~= non_empty_slots(front));
        }
    }
}

/// A part of a list has no identifier twice where the list has none.
proof fn lemma_filter_distinct<T>(entries: Seq<TimerEntry<T>>, keep: spec_fn(TimerEntry<T>) -> bool)
    requires
        distinct(entries),
    ensures
        distinct(entries.filter(keep)),
    decreases entries.len(),
{
    broadcast use vstd::seq_lib::group_filter_ensures;

    reveal(Seq::filter);
    if entries.len() > 0 {
        let front = entries.drop_last();
        lemma_filter_distinct(front, keep);
        let rest = front.filter(keep);
        assert forall|i: int| 0 <= i < rest.len() implies (#[trigger] rest[i]).id
            != entries.last().id by {
            assert(rest.contains(rest[i]));
            front.lemma_filter_contains_rev(keep, rest[i]);
            let j = choose|j: int| 0 <= j < front.len() && front[j] == rest[i];
            assert(entries[j].id != entries[entries.len() - 1].id);
        }
    }
}

/// Whether `t` is when the first of `timers` is due.
pub open spec fn is_next_expiry<T>(timers: Map<u64, TimerEntry<T>>, next: Option<u64>) -> bool {
    match next {
        Some(t) => {
            &&& exists|id: u64| #[trigger] timers.contains_key(id) && timers[id].expiry_time == t
            &&& forall|id: u64| #[trigger] timers.contains_key(id) ==> t <= timers[id].expiry_time
        },
        None => forall|id: u64| !#[trigger] timers.contains_key(id),
    }
}

/// The timing wheel.
pub struct TimingWheel<T> {
    slots: Vec<Vec<TimerEntry<T>>>,
    /// The slot of each timer.
    timer_map: HashMap<u64, usize>,
    slot_duration: u64,
    /// The instant at which the first tick starts.
    start_time: u64,
    /// The tick up to which the wheel has been advanced.
    current_tick: u64,
    next_timer_id: u64,
    /// The next expiry time, where it is known.
    next_expiry_cache: Option<Option<u64>>,
    timers: Ghost<Map<u64, TimerEntry<T>>>,
}

impl<T> View for TimingWheel<T> {
    type V = Map<u64, TimerEntry<T>>;

    closed spec fn view(&self) -> Map<u64, TimerEntry<T>> {
        self.timers@
    }
}

impl<T> TimingWheel<T> {
    /// The identifier that the next timer gets.
    pub closed spec fn next_id(&self) -> u64 {
        self.next_timer_id
    }

    pub closed spec fn spec_slot_count(&self) -> int {
        self.slots@.len() as int
    }

    pub closed spec fn spec_slot_duration(&self) -> u64 {
        self.slot_duration
    }

    /// The instant at which the first tick starts.
    pub closed spec fn spec_start_time(&self) -> u64 {
        self.start_time
    }

    /// The tick up to which the wheel has been advanced.
    pub closed spec fn spec_current_tick(&self) -> u64 {
        self.current_tick
    }

    /// The ring, its ticks and the current tick are those of `other`.
    pub open spec fn same_ring(&self, other: Self) -> bool {
        &&& self.spec_slot_count() == other.spec_slot_count()
        &&& self.spec_slot_duration() == other.spec_slot_duration()
        &&& self.spec_start_time() == other.spec_start_time()
        &&& self.spec_current_tick() == other.spec_current_tick()
    }

    /// The ring is that of `before`, and has moved on to the tick of `now`.
    pub open spec fn ring_moved(&self, before: Self, now: u64) -> bool {
        &&& self.spec_slot_count() == before.spec_slot_count()
        &&& self.spec_slot_duration() == before.spec_slot_duration()
        &&& self.spec_start_time() == before.spec_start_time()
        &&& self.spec_current_tick() == before.place(now)
    }

    /// The tick that the instant `t` lies in.
    pub open spec fn tick_of(&self, t: u64) -> int {
        if t >= self.spec_start_time() {
            (t - self.spec_start_time()) / (self.spec_slot_duration() as int)
        } else {
            0
        }
    }

    /// The tick in whose slot a timer for the instant `t` is kept: its own, or
    /// the current one where its own has gone by.
    pub open spec fn place(&self, t: u64) -> int {
        if self.tick_of(t) >= self.spec_current_tick() {
            self.tick_of(t)
        } else {
            self.spec_current_tick() as int
        }
    }

    /// The slot of a timer for the instant `t`.
    pub open spec fn slot_of(&self, t: u64) -> int {
        self.place(t) % self.spec_slot_count()
    }

    /// A ring has slots, and they have a length.
    pub proof fn law_slots_have_a_length(&self)
        requires
            self.wf(),
        ensures
            self.spec_slot_count() > 0,
            self.spec_slot_duration() > 0,
    {
    }

    /// The slots that hold a timer.
    pub open spec fn occupied(&self) -> Set<int> {
        self@.dom().map(|id: u64| self.slot_of(self@[id].expiry_time))
    }

    /// Slots, slot numbers and timers fit together, and every timer is in its slot.
    pub closed spec fn wf(&self) -> bool {
        &&& self.slots@.len() > 0
        &&& self.slot_duration > 0
        &&& self.wf_index()
        &&& self.wf_slots()
        &&& forall|id: u64| #[trigger]
            self.timers@.contains_key(id) ==> self.timer_map@[id] == self.slot_of(
                self.timers@[id].expiry_time,
            )
        &&& self.next_expiry_cache is Some ==> is_next_expiry(
            self.timers@,
            self.next_expiry_cache->0,
        )
    }

    spec fn wf_index(&self) -> bool {
        &&& self.timer_map@.dom() == self.timers@.dom()
        &&& forall|id: u64| #[trigger]
            self.timers@.contains_key(id) ==> {
                &&& self.timers@[id].id == id
                &&& id < self.next_timer_id
                &&& self.timer_map@[id] < self.slots@.len()
                &&& lists(self.slots@[self.timer_map@[id] as int]@, id)
            }
    }

    spec fn wf_slots(&self) -> bool {
        forall|s: int|
            0 <= s < self.slots@.len() ==> self.wf_slot(#[trigger] self.slots@[s]@, s)
    }

    spec fn wf_slot(&self, slot: Seq<TimerEntry<T>>, s: int) -> bool {
        &&& distinct(slot)
        &&& forall|i: int|
            0 <= i < slot.len() ==> {
                &&& self.timers@.contains_key((#[trigger] slot[i]).id)
                &&& self.timers@[slot[i].id] == slot[i]
                &&& self.timer_map@[slot[i].id] == s
            }
    }

    /// There are finitely many timers, and their identifiers have been given out.
    pub proof fn lemma_timers(&self)
        requires
            self.wf(),
        ensures
            self@.dom().finite(),
            forall|id: u64| #[trigger]
                self@.contains_key(id) ==> self@[id].id == id && id < self.next_id(),
    {
        assert(self.timer_map@.dom().finite());
    }

    /// A wheel without timers, whose first tick starts at `now`.
    pub fn new(slot_count: usize, slot_duration: u64, now: u64) -> (wheel: Self)
        requires
            slot_count > 0,
            slot_count & ((slot_count - 1) as usize) == 0,
            slot_duration > 0,
        ensures
            wheel.wf(),
            wheel@ == Map::<u64, TimerEntry<T>>::empty(),
            wheel.next_id() == 1,
            wheel.spec_slot_count() == slot_count,
            wheel.spec_slot_duration() == slot_duration,
            wheel.spec_start_time() == now,
            wheel.spec_current_tick() == 0,
    {
        let mut slots: Vec<Vec<TimerEntry<T>>> = Vec::with_capacity(slot_count);
        let mut i: usize = 0;
        while i < slot_count
            invariant
                i <= slot_count,
                slots@.len() == i,
                forall|s: int| 0 <= s < i ==> (#[trigger] slots@[s])@.len() == 0,
            decreases slot_count - i,
        {
            slots.push(Vec::new());
            i = i + 1;
        }
        TimingWheel {
            slots,
            timer_map: HashMap::new(),
            slot_duration,
            start_time: now,
            current_tick: 0,
            next_timer_id: 1,
            next_expiry_cache: None,
            timers: Ghost(Map::empty()),
        }
    }

    /// A wheel with the default ring.
    pub fn new_default(now: u64) -> (wheel: Self)
        ensures
            wheel.wf(),
            wheel@ == Map::<u64, TimerEntry<T>>::empty(),
            wheel.next_id() == 1,
            wheel.spec_slot_count() == DEFAULT_SLOT_COUNT,
            wheel.spec_slot_duration() == DEFAULT_SLOT_DURATION,
            wheel.spec_start_time() == now,
            wheel.spec_current_tick() == 0,
    {
        assert(512usize & 511usize == 0) by (bit_vector);
        TimingWheel::new(DEFAULT_SLOT_COUNT, DEFAULT_SLOT_DURATION, now)
    }

    /// The slot of the current tick.
    pub fn current_slot(&self) -> (s: usize)
        requires
            self.wf(),
        ensures
            s == self.spec_current_tick() as int % self.spec_slot_count(),
    {
        (self.current_tick % (self.slots.len() as u64)) as usize
    }

    /// The slot for a timer that expires at `expiry_time`.
    fn slot_index(&self, expiry_time: u64) -> (s: usize)
        requires
            self.wf(),
        ensures
            s == self.slot_of(expiry_time),
            s < self.slots@.len(),
    {
        let tick: u64 = self.tick_at(expiry_time);
        let place: u64 = if tick >= self.current_tick {
            tick
        } else {
            self.current_tick
        };
        (place % (self.slots.len() as u64)) as usize
    }

    /// The tick that `t` lies in.
    fn tick_at(&self, t: u64) -> (tick: u64)
        requires
            self.wf(),
        ensures
            tick == self.tick_of(t),
    {
        if t >= self.start_time {
            let tick: u64 = (t - self.start_time) / self.slot_duration;
            tick
        } else {
            0
        }
    }

    /// Adds a timer that expires `delay` after `now`, and gives it a new identifier.
    pub fn add_timer(&mut self, delay: u64, event: T, now: u64) -> (id: u64)
        requires
            old(self).wf(),
            now + delay <= u64::MAX,
            old(self).next_id() < u64::MAX,
        ensures
            final(self).wf(),
            id == old(self).next_id(),
            final(self).next_id() == old(self).next_id() + 1,
            !old(self)@.contains_key(id),
            final(self)@ == old(self)@.insert(
                id,
                TimerEntry { id, expiry_time: (now + delay) as u64, event },
            ),
            final(self).same_ring(*old(self)),
    {
        let id = self.next_timer_id;
        let expiry_time: u64 = now + delay;
        let s = self.slot_index(expiry_time);
        let entry = TimerEntry { id, expiry_time, event };
        let ghost slot_before = self.slots@[s as int]@;
        let ghost before = *self;
        self.slots[s].push(entry);
        self.timer_map.insert(id, s);
        self.next_timer_id = id + 1;
        self.next_expiry_cache = match self.next_expiry_cache {
            Some(Some(t)) => if expiry_time < t {
                Some(Some(expiry_time))
            } else {
                Some(Some(t))
            },
            Some(None) => Some(Some(expiry_time)),
            None => None,
        };
        self.timers = Ghost(self.timers@.insert(id, entry));
        proof {
            let slot = self.slots@[s as int]@;
            assert(slot == slot_before.push(entry));
            assert forall|r: int| 0 <= r < self.slots@.len() implies self.wf_slot(
                #[trigger] self.slots@[r]@,
                r,
            ) by {
                assert(before.wf_slot(before.slots@[r]@, r));
            }
            assert forall|other: u64| #[trigger] self.timers@.contains_key(other) implies lists(
                self.slots@[self.timer_map@[other] as int]@,
                other,
            ) by {
                if other == id {
                    assert(slot[slot_before.len() as int].id == id);
                } else {
                    assert(before.timers@.contains_key(other));
                    let list = before.slots@[before.timer_map@[other] as int]@;
                    let i = choose|i: int|
                        0 <= i < list.len() && (#[trigger] list[i]).id == other;
                    assert(self.slots@[self.timer_map@[other] as int]@[i].id == other);
                }
            }
            if before.next_expiry_cache is Some {
                assert(self.timers@.contains_key(id));
                assert(forall|k: u64| #[trigger]
                    self.timers@.contains_key(k) ==> k == id || before.timers@.contains_key(k));
                match before.next_expiry_cache->0 {
                    Some(t) => {
                        let w = choose|w: u64| #[trigger]
                            before.timers@.contains_key(w) && before.timers@[w].expiry_time == t;
                        assert(self.timers@.contains_key(w));
                    },
                    None => {},
                }
            }
        }
        id
    }

    /// The position of the timer `id` in the slot `s`.
    fn position(&self, s: usize, id: u64) -> (p: usize)
        requires
            s < self.slots@.len(),
            lists(self.slots@[s as int]@, id),
        ensures
            p < self.slots@[s as int]@.len(),
            self.slots@[s as int]@[p as int].id == id,
    {
        let mut p: usize = 0;
        while p < self.slots[s].len()
            invariant
                s < self.slots@.len(),
                lists(self.slots@[s as int]@, id),
                forall|j: int| 0 <= j < p ==> self.slots@[s as int]@[j].id != id,
            decreases self.slots@[s as int]@.len() - p,
        {
            if self.slots[s][p].id == id {
                return p;
            }
            p = p + 1;
        }
        p
    }

    /// Takes the timer `id` out, and says whether there was one.
    pub fn cancel_timer(&mut self, id: u64) -> (cancelled: bool)
        requires
            old(self).wf(),
        ensures
            final(self).wf(),
            cancelled == old(self)@.contains_key(id),
            final(self)@ == old(self)@.remove(id),
            final(self).next_id() == old(self).next_id(),
            final(self).same_ring(*old(self)),
    {
        let ghost before = *self;
        match self.timer_map.remove(&id) {
            None => {
                assert(!before.timers@.contains_key(id));
                assert(self.timer_map@ =~= before.timer_map@);
                assert(before.timers@.remove(id) =~= before.timers@);
                false
            },
            Some(s) => {
                assert(before.timers@.contains_key(id));
                let p = self.position(s, id);
                self.slots[s].remove(p);
                self.timers = Ghost(self.timers@.remove(id));
                self.next_expiry_cache = None;
                proof {
                    let was = before.slots@[s as int]@;
                    let slot = self.slots@[s as int]@;
                    assert(before.wf_slot(was, s as int));
                    assert(slot == was.remove(p as int));
                    assert forall|i: int| 0 <= i < slot.len() implies #[trigger] slot[i] == was[if i
                        < p {
                        i
                    } else {
                        i + 1
                    }] by {}
                    assert(self.wf_slot(slot, s as int));
                    assert forall|r: int| 0 <= r < self.slots@.len() implies self.wf_slot(
                        #[trigger] self.slots@[r]@,
                        r,
                    ) by {
                        assert(before.wf_slot(before.slots@[r]@, r));
                        if r != s {
                            assert(self.slots@[r]@ == before.slots@[r]@);
                            assert forall|i: int| 0 <= i < self.slots@[r]@.len() implies (
                            #[trigger] self.slots@[r]@[i]).id != id by {}
                        }
                    }
                    assert forall|other: u64| #[trigger]
                        self.timers@.contains_key(other) implies lists(
                        self.slots@[self.timer_map@[other] as int]@,
                        other,
                    ) by {
                        assert(before.timers@.contains_key(other));
                        let list = before.slots@[before.timer_map@[other] as int]@;
                        let i = choose|i: int|
                            0 <= i < list.len() && (#[trigger] list[i]).id == other;
                        if self.timer_map@[other] == s {
                            let k = if i < p {
                                i
                            } else {
                                i - 1
                            };
                            assert(slot[k].id == other);
                        } else {
                            assert(self.slots@[self.timer_map@[other] as int]@[i].id == other);
                        }
                    }
                    assert(self.timer_map@.dom() =~= self.timers@.dom());
                }
                true
            },
        }
    }

    /// Moves the timers of the slot `s` that are due at `now` to the end of `expired`.
    fn expire_slot(&mut self, s: usize, now: u64, expired: &mut Vec<TimerEntry<T>>)
        requires
            old(self).wf(),
            s < old(self).slots@.len(),
        ensures
            final(self).wf(),
            final(self).same_shape(*old(self)),
            final(expired)@.len() >= old(expired)@.len(),
            final(expired)@.take(old(expired)@.len() as int) == old(expired)@,
            enumerates(
                final(expired)@.skip(old(expired)@.len() as int),
                due(old(self).in_slot(s as int), now),
            ),
            forall|id: u64| #[trigger]
                final(self).timers@.contains_key(id) <==> old(self).timers@.contains_key(id) && !due(
                    old(self).in_slot(s as int),
                    now,
                ).contains_key(id),
            forall|id: u64| #[trigger]
                final(self).timers@.contains_key(id) ==> final(self).timers@[id] == old(self).timers@[id],
            forall|id: u64| #[trigger]
                final(self).timers@.contains_key(id) ==> final(self).timer_map@[id] == old(self).timer_map@[id],
    {
        let ghost before = *self;
        let mut entries: Vec<TimerEntry<T>> = Vec::new();
        std::mem::swap(&mut entries, &mut self.slots[s]);
        let ghost all = entries@;
        let ghost is_due = |e: TimerEntry<T>| e.expiry_time <= now;
        let ghost is_kept = |e: TimerEntry<T>| e.expiry_time > now;
        let mut kept: Vec<TimerEntry<T>> = Vec::new();
        let ghost mut gone: Seq<TimerEntry<T>> = Seq::empty();
        assert(before.wf_slot(all, s as int));
        for entry in iter: entries
            invariant
                iter.seq() == all,
                before.wf_slot(all, s as int),
                is_due == (|e: TimerEntry<T>| e.expiry_time <= now),
                is_kept == (|e: TimerEntry<T>| e.expiry_time > now),
                kept@ == all.take(iter.index()).filter(is_kept),
                gone == all.take(iter.index()).filter(is_due),
                expired@ == old(expired)@ + gone,
                forall|id: u64| #[trigger]
                    self.timer_map@.contains_key(id) <==> before.timer_map@.contains_key(id)
                        && !lists(gone, id),
                forall|id: u64| #[trigger]
                    self.timer_map@.contains_key(id) ==> self.timer_map@[id]
                        == before.timer_map@[id],
                self.slots@ == before.slots@.update(s as int, self.slots@[s as int]),
                self.slots@.len() == before.slots@.len(),
                s < before.slots@.len(),
                self.same_shape(before),
                self.timers == before.timers,
                self.next_expiry_cache == before.next_expiry_cache,
        {
            proof {
                reveal(Seq::filter);
                assert(all.take(iter.index() + 1).drop_last() == all.take(iter.index()));
                assert(all.take(iter.index() + 1).last() == entry);
            }
            if entry.expiry_time <= now {
                self.timer_map.remove(&entry.id);
                let ghost more = gone.push(entry);
                proof {
                    assert forall|id: u64| lists(more, id) <==> lists(gone, id) || id
                        == entry.id by {
                        if lists(gone, id) {
                            let i = choose|i: int|
                                0 <= i < gone.len() && (#[trigger] gone[i]).id == id;
                            assert(more[i].id == id);
                        }
                        if id == entry.id {
                            assert(more[gone.len() as int].id == id);
                        }
                    }
                    gone = more;
                }
                expired.push(entry);
            } else {
                kept.push(entry);
            }
        }
        self.slots[s] = kept;
        self.next_expiry_cache = None;
        let ghost left = due(before.in_slot(s as int), now);
        self.timers = Ghost(
            before.timers@.restrict(
                Set::new(
                    |id: u64| before.timers@.contains_key(id) && !left.contains_key(id),
                ),
            ),
        );
        proof {
            broadcast use vstd::seq_lib::group_filter_ensures;

            assert(all.take(all.len() as int) == all);
            lemma_filter_distinct(all, is_due);
            lemma_filter_distinct(all, is_kept);
            assert forall|i: int| 0 <= i < gone.len() implies left.contains_key(
                (#[trigger] gone[i]).id,
            ) && left[gone[i].id] == gone[i] by {
                assert(gone.contains(gone[i]));
                all.lemma_filter_contains_rev(is_due, gone[i]);
                assert(is_due(gone[i]));
            }
            assert forall|id: u64| #[trigger] left.contains_key(id) implies lists(gone, id) by {
                assert(before.timers@.contains_key(id));
                let i = choose|i: int| 0 <= i < all.len() && (#[trigger] all[i]).id == id;
                assert(is_due(all[i]));
                assert(gone.contains(all[i]));
                let j = choose|j: int| 0 <= j < gone.len() && gone[j] == all[i];
                assert(gone[j].id == id);
            }
            assert(enumerates(gone, left));
            assert(expired@.skip(old(expired)@.len() as int) =~= gone);
            assert(expired@.take(old(expired)@.len() as int) =~= old(expired)@);
            assert(self.timer_map@.dom() =~= self.timers@.dom());
            let slot = self.slots@[s as int]@;
            assert forall|r: int| 0 <= r < self.slots@.len() implies self.wf_slot(
                #[trigger] self.slots@[r]@,
                r,
            ) by {
                assert(before.wf_slot(before.slots@[r]@, r));
                if r == s {
                    assert forall|i: int| 0 <= i < slot.len() implies self.timers@.contains_key(
                        (#[trigger] slot[i]).id,
                    ) && self.timers@[slot[i].id] == slot[i] && self.timer_map@[slot[i].id]
                        == s by {
                        let e = slot[i];
                        assert(slot.contains(e));
                        all.lemma_filter_contains_rev(is_kept, e);
                        assert(is_kept(e));
                        let j = choose|j: int| 0 <= j < all.len() && all[j] == e;
                        assert(before.timers@[all[j].id] == e);
                        assert(!left.contains_key(e.id));
                        assert(self.timers@.contains_key(e.id));
                        assert(self.timer_map@.contains_key(e.id));
                    }
                    assert(self.wf_slot(slot, r));
                } else {
                    let list = self.slots@[r]@;
                    assert(list == before.slots@[r]@);
                    assert forall|i: int| 0 <= i < list.len() implies self.timers@.contains_key(
                        (#[trigger] list[i]).id,
                    ) && self.timers@[list[i].id] == list[i] && self.timer_map@[list[i].id]
                        == r by {
                        let id = list[i].id;
                        assert(before.timer_map@[id] == r);
                        assert(!left.contains_key(id));
                        assert(self.timers@.contains_key(id));
                        assert(self.timer_map@.contains_key(id));
                    }
                    assert(self.wf_slot(list, r));
                }
            }
            assert forall|id: u64| #[trigger] self.timers@.contains_key(id) implies lists(
                self.slots@[self.timer_map@[id] as int]@,
                id,
            ) by {
                assert(before.timers@.contains_key(id));
                let list = before.slots@[before.timer_map@[id] as int]@;
                let i = choose|i: int| 0 <= i < list.len() && (#[trigger] list[i]).id == id;
                if self.timer_map@[id] == s {
                    assert(is_kept(all[i]));
                    assert(slot.contains(all[i]));
                    let j = choose|j: int| 0 <= j < slot.len() && slot[j] == all[i];
                    assert(slot[j].id == id);
                }
            }
        }
    }

    /// Adds timers, each `.0` after `now`; their identifiers are consecutive.
    pub fn batch_add_timers(&mut self, batch: Vec<(u64, T)>, now: u64) -> (ids: Vec<u64>)
        requires
            old(self).wf(),
            forall|i: int| 0 <= i < batch@.len() ==> now + (#[trigger] batch@[i]).0 <= u64::MAX,
            old(self).next_id() + batch@.len() <= u64::MAX,
        ensures
            final(self).wf(),
            ids@ == Seq::new(batch@.len(), |i: int| (old(self).next_id() + i) as u64),
            final(self).next_id() == old(self).next_id() + batch@.len(),
            final(self)@ == with_batch(old(self)@, old(self).next_id(), batch@, now),
            final(self).same_ring(*old(self)),
    {
        let ghost all = batch@;
        let ghost first = self.next_timer_id;
        let ghost before = self@;
        let mut ids: Vec<u64> = Vec::new();
        assert(with_batch(before, first, all.take(0), now) =~= before) by {
            assert(all.take(0).len() == 0);
        }
        for item in iter: batch
            invariant
                iter.seq() == all,
                self.wf(),
                forall|i: int| 0 <= i < all.len() ==> now + (#[trigger] all[i]).0 <= u64::MAX,
                first + all.len() <= u64::MAX,
                self.next_timer_id == first + iter.index(),
                ids@ == Seq::new(iter.index() as nat, |i: int| (first + i) as u64),
                self@ == with_batch(before, first, all.take(iter.index()), now),
                self.same_ring(*old(self)),
        {
            let (delay, event) = item;
            let ghost k = iter.index();
            assert(all[k] == (delay, event));
            let id = self.add_timer(delay, event, now);
            ids.push(id);
            assert(ids@ =~= Seq::new((k + 1) as nat, |i: int| (first + i) as u64));
            assert(self@ =~= with_batch(before, first, all.take(k + 1), now));
        }
        assert(all.take(all.len() as int) == all);
        ids
    }

    /// Takes out the timers `ids`, and says how many there were.
    pub fn batch_cancel_timers(&mut self, ids: &[u64]) -> (cancelled: usize)
        requires
            old(self).wf(),
        ensures
            final(self).wf(),
            final(self)@ == old(self)@.remove_keys(ids@.to_set()),
            cancelled == old(self)@.dom().len() - final(self)@.dom().len(),
            final(self).next_id() == old(self).next_id(),
            final(self).same_ring(*old(self)),
    {
        let ghost before = self@;
        let mut cancelled: usize = 0;
        let mut i: usize = 0;
        assert(before.remove_keys(ids@.take(0).to_set()) =~= before);
        while i < ids.len()
            invariant
                i <= ids@.len(),
                self.wf(),
                cancelled <= i,
                self@ == before.remove_keys(ids@.take(i as int).to_set()),
                before.dom().finite(),
                cancelled == before.dom().len() - self@.dom().len(),
                self.next_timer_id == old(self).next_timer_id,
                self.same_ring(*old(self)),
            decreases ids@.len() - i,
        {
            let ghost mid = self@;
            if self.cancel_timer(ids[i]) {
                cancelled = cancelled + 1;
            } else {
                assert(mid.remove(ids@[i as int]) =~= mid);
            }
            proof {
                crate::collections::lemma_take_to_set(ids@, i as int);
                assert(self@ =~= before.remove_keys(ids@.take(i + 1).to_set()));
            }
            i = i + 1;
        }
        assert(ids@.take(ids@.len() as int) == ids@);
        cancelled
    }

    /// When the first timer is due. The answer is kept for the next time.
    pub fn next_expiry_time(&mut self) -> (next: Option<u64>)
        requires
            old(self).wf(),
        ensures
            final(self).wf(),
            final(self)@ == old(self)@,
            is_next_expiry(old(self)@, next),
            final(self).next_id() == old(self).next_id(),
            final(self).same_ring(*old(self)),
    {
        if let Some(known) = self.next_expiry_cache {
            return known;
        }
        let next = self.earliest();
        let ghost before = *self;
        self.next_expiry_cache = Some(next);
        proof {
            assert forall|s: int| 0 <= s < self.slots@.len() implies self.wf_slot(
                #[trigger] self.slots@[s]@,
                s,
            ) by {
                assert(before.wf_slot(before.slots@[s]@, s));
            }
            assert forall|id: u64| #[trigger]
                self.timers@.contains_key(id) implies self.timer_map@[id] == self.slot_of(
                self.timers@[id].expiry_time,
            ) by {
                assert(before.timers@.contains_key(id));
            }
        }
        next
    }

    /// The earliest expiry time of all timers.
    fn earliest(&self) -> (next: Option<u64>)
        requires
            self.wf(),
        ensures
            is_next_expiry(self@, next),
    {
        let mut next: Option<u64> = None;
        let mut s: usize = 0;
        while s < self.slots.len()
            invariant
                self.wf(),
                s <= self.slots@.len(),
                next matches Some(t) ==> exists|id: u64| #[trigger]
                    self.timers@.contains_key(id) && self.timers@[id].expiry_time == t,
                forall|id: u64| #[trigger]
                    self.timers@.contains_key(id) && self.timer_map@[id] < s ==> next is Some
                        && next->0 <= self.timers@[id].expiry_time,
            decreases self.slots@.len() - s,
        {
            let mut i: usize = 0;
            assert(self.wf_slot(self.slots@[s as int]@, s as int));
            while i < self.slots[s].len()
                invariant
                    self.wf(),
                    s < self.slots@.len(),
                    self.wf_slot(self.slots@[s as int]@, s as int),
                    i <= self.slots@[s as int]@.len(),
                    next matches Some(t) ==> exists|id: u64| #[trigger]
                        self.timers@.contains_key(id) && self.timers@[id].expiry_time == t,
                    forall|id: u64| #[trigger]
                        self.timers@.contains_key(id) && self.timer_map@[id] < s ==> next is Some
                            && next->0 <= self.timers@[id].expiry_time,
                    forall|j: int|
                        0 <= j < i ==> next is Some && next->0 <= (
                        #[trigger] self.slots@[s as int]@[j]).expiry_time,
                decreases self.slots@[s as int]@.len() - i,
            {
                let t: u64 = self.slots[s][i].expiry_time;
                assert(self.timers@.contains_key(self.slots@[s as int]@[i as int].id));
                next = match next {
                    Some(earliest) => if t < earliest {
                        Some(t)
                    } else {
                        Some(earliest)
                    },
                    None => Some(t),
                };
                i = i + 1;
            }
            assert forall|id: u64| #[trigger]
                self.timers@.contains_key(id) && self.timer_map@[id] < s + 1 implies next is Some
                && next->0 <= self.timers@[id].expiry_time by {
                if self.timer_map@[id] == s {
                    let list = self.slots@[s as int]@;
                    let j = choose|j: int| 0 <= j < list.len() && (#[trigger] list[j]).id == id;
                    assert(self.timers@[list[j].id] == list[j]);
                }
            }
            s = s + 1;
        }
        next
    }

    /// How full the wheel is.
    pub fn stats(&self) -> (stats: TimingWheelStats)
        requires
            self.wf(),
        ensures
            stats.total_slots == self.spec_slot_count(),
            stats.non_empty_slots == self.occupied().len(),
            stats.total_timers == self@.dom().len(),
    {
        let mut non_empty_slots: usize = 0;
        let mut s: usize = 0;
        while s < self.slots.len()
            invariant
                s <= self.slots@.len(),
                non_empty_slots <= s,
                non_empty_slots == non_empty(self.slots@.take(s as int)),
            decreases self.slots@.len() - s,
        {
            assert(self.slots@.take(s + 1).drop_last() == self.slots@.take(s as int));
            if self.slots[s].len() > 0 {
                non_empty_slots = non_empty_slots + 1;
            }
            s = s + 1;
        }
        proof {
            assert(self.slots@.take(self.slots@.len() as int) == self.slots@);
            lemma_non_empty(self.slots@);
            self.lemma_occupied();
        }
        TimingWheelStats {
            total_slots: self.slots.len(),
            non_empty_slots,
            total_timers: self.timer_map.len(),
        }
    }

    /// The number of timers.
    pub fn timer_count(&self) -> (n: usize)
        requires
            self.wf(),
        ensures
            n == self@.dom().len(),
    {
        self.timer_map.len()
    }

    /// Whether there is no timer.
    pub fn is_empty(&self) -> (empty: bool)
        requires
            self.wf(),
        ensures
            empty == (self@ == Map::<u64, TimerEntry<T>>::empty()),
    {
        let n = self.timer_map.len();
        proof {
            if n == 0 {
                assert(self@.dom() =~= Set::empty());
                assert(self@ =~= Map::<u64, TimerEntry<T>>::empty());
            }
        }
        n == 0
    }

    /// Takes out all timers.
    pub fn clear(&mut self)
        requires
            old(self).wf(),
        ensures
            final(self).wf(),
            final(self)@ == Map::<u64, TimerEntry<T>>::empty(),
            final(self).next_id() == old(self).next_id(),
            final(self).same_ring(*old(self)),
    {
        let mut slots: Vec<Vec<TimerEntry<T>>> = Vec::new();
        let mut s: usize = 0;
        while s < self.slots.len()
            invariant
                s <= self.slots@.len(),
                slots@.len() == s,
                forall|r: int| 0 <= r < s ==> (#[trigger] slots@[r])@.len() == 0,
            decreases self.slots@.len() - s,
        {
            slots.push(Vec::new());
            s = s + 1;
        }
        self.slots = slots;
        self.timer_map.clear();
        self.next_expiry_cache = None;
        self.timers = Ghost(Map::empty());
    }

    /// The slots that hold a timer are the lists that are not empty.
    proof fn lemma_occupied(&self)
        requires
            self.wf(),
        ensures
            self.occupied() == non_empty_slots(self.slots@),
    {
        assert forall|s: int| self.occupied().contains(s) <==> non_empty_slots(
            self.slots@,
        ).contains(s) by {
            if self.occupied().contains(s) {
                let id = choose|id: u64|
                    self@.dom().contains(id) && self.slot_of(self@[id].expiry_time) == s;
                assert(self.timers@.contains_key(id));
                assert(lists(self.slots@[s]@, id));
            }
            if non_empty_slots(self.slots@).contains(s) {
                assert(self.wf_slot(self.slots@[s]@, s));
                let id = self.slots@[s]@[0].id;
                assert(self.timers@.contains_key(id));
                assert(self@.dom().contains(id));
                assert(self.slot_of(self@[id].expiry_time) == s);
            }
        }
        assert(self.occupied() =~= non_empty_slots(self.slots@));
    }

    pub fn slot_count(&self) -> (n: usize)
        ensures
            n == self.spec_slot_count(),
    {
        self.slots.len()
    }

    pub fn slot_duration(&self) -> (d: u64)
        ensures
            d == self.spec_slot_duration(),
    {
        self.slot_duration
    }

    /// Every due timer that is still there lies in a tick from the current one
    /// up to that of `now`.
    proof fn lemma_due_place(&self, now: u64, id: u64)
        requires
            self.wf(),
            self.timers@.contains_key(id),
            self.timers@[id].expiry_time <= now,
        ensures
            self.current_tick <= self.place(self.timers@[id].expiry_time) <= self.place(now),
    {
        let t = self.timers@[id].expiry_time;
        if t >= self.start_time {
            vstd::arithmetic::div_mod::lemma_div_is_ordered(
                t - self.start_time,
                now - self.start_time,
                self.slot_duration as int,
            );
        } else if now >= self.start_time {
            vstd::arithmetic::div_mod::lemma_div_pos_is_pos(
                now - self.start_time,
                self.slot_duration as int,
            );
        }
    }

    /// Takes out every timer that is due at `now`.
    pub fn advance(&mut self, now: u64) -> (expired: Vec<TimerEntry<T>>)
        requires
            old(self).wf(),
        ensures
            final(self).wf(),
            final(self)@ == not_due(old(self)@, now),
            enumerates(expired@, due(old(self)@, now)),
            final(self).next_id() == old(self).next_id(),
            final(self).ring_moved(*old(self), now),
    {
        let ghost before = *self;
        let mut expired: Vec<TimerEntry<T>> = Vec::new();
        let tick: u64 = self.tick_at(now);
        let target: u64 = if tick >= self.current_tick {
            tick
        } else {
            self.current_tick
        };
        let count: u64 = self.slots.len() as u64;
        let ahead: u64 = target - self.current_tick;
        let steps: u64 = if ahead < count {
            ahead + 1
        } else {
            count
        };
        let mut k: u64 = 0;
        while k < steps
            invariant
                before.wf(),
                self.wf(),
                self.same_shape(before),
                count == before.slots@.len(),
                count > 0,
                target == before.place(now),
                ahead == target - before.current_tick,
                steps <= ahead + 1,
                k <= steps,
                forall|id: u64| #[trigger]
                    self.timers@.contains_key(id) ==> {
                        &&& before.timers@.contains_key(id)
                        &&& self.timers@[id] == before.timers@[id]
                        &&& self.timer_map@[id] == before.timer_map@[id]
                    },
                forall|id: u64| #[trigger]
                    before.timers@.contains_key(id) && !self.timers@.contains_key(id) ==> lists(
                        expired@,
                        id,
                    ),
                forall|i: int|
                    0 <= i < expired@.len() ==> {
                        &&& before.timers@.contains_key((#[trigger] expired@[i]).id)
                        &&& before.timers@[expired@[i].id] == expired@[i]
                        &&& expired@[i].expiry_time <= now
                        &&& !self.timers@.contains_key(expired@[i].id)
                    },
                distinct(expired@),
                forall|j: int, id: u64|
                    0 <= j < k && #[trigger] self.timers@.contains_key(id)
                        && self.timer_map@[id] == #[trigger] ((before.current_tick + j) % (
                    count as int)) ==> self.timers@[id].expiry_time > now,
            decreases steps - k,
        {
            let s: usize = ((self.current_tick + k) % count) as usize;
            let ghost mid = *self;
            let ghost had = expired@;
            self.expire_slot(s, now, &mut expired);
            proof {
                let new = expired@.skip(had.len() as int);
                let left = due(mid.in_slot(s as int), now);
                assert(expired@ =~= had + new);
                assert forall|i: int| 0 <= i < new.len() implies left.contains_key(
                    (#[trigger] new[i]).id,
                ) by {}
                assert forall|i: int, j: int| 0 <= i < j < expired@.len() implies (
                #[trigger] expired@[i]).id != (#[trigger] expired@[j]).id by {
                    if i < had.len() && j >= had.len() {
                        assert(expired@[i] == had[i]);
                        assert(expired@[j] == new[j - had.len()]);
                        assert(mid.timers@.contains_key(expired@[j].id));
                    } else if i >= had.len() {
                        assert(expired@[i] == new[i - had.len()]);
                        assert(expired@[j] == new[j - had.len()]);
                    } else {
                        assert(expired@[i] == had[i]);
                        assert(expired@[j] == had[j]);
                    }
                }
                assert forall|i: int| 0 <= i < expired@.len() implies {
                    &&& before.timers@.contains_key((#[trigger] expired@[i]).id)
                    &&& before.timers@[expired@[i].id] == expired@[i]
                    &&& expired@[i].expiry_time <= now
                    &&& !self.timers@.contains_key(expired@[i].id)
                } by {
                    if i < had.len() {
                        assert(expired@[i] == had[i]);
                    } else {
                        assert(expired@[i] == new[i - had.len()]);
                        let id = expired@[i].id;
                        assert(left.contains_key(id) && left[id] == expired@[i]);
                        assert(mid.timers@.contains_key(id) && mid.timers@[id] == left[id]);
                    }
                }
                assert forall|id: u64| #[trigger]
                    before.timers@.contains_key(id) && !self.timers@.contains_key(id) implies lists(
                    expired@,
                    id,
                ) by {
                    if mid.timers@.contains_key(id) {
                        assert(left.contains_key(id));
                        let i = choose|i: int| 0 <= i < new.len() && (#[trigger] new[i]).id == id;
                        assert(expired@[had.len() + i].id == id);
                    } else {
                        let i = choose|i: int| 0 <= i < had.len() && (#[trigger] had[i]).id == id;
                        assert(expired@[i].id == id);
                    }
                }
                assert forall|j: int, id: u64|
                    0 <= j < k + 1 && #[trigger] self.timers@.contains_key(id)
                        && self.timer_map@[id] == #[trigger] ((before.current_tick + j) % (
                    count as int)) implies self.timers@[id].expiry_time > now by {
                    assert(mid.timers@.contains_key(id));
                    if j == k {
                        assert(!left.contains_key(id));
                    }
                }
            }
            k = k + 1;
        }
        let ghost swept = *self;
        self.current_tick = target;
        proof {
            assert forall|id: u64| #[trigger] swept.timers@.contains_key(id) implies {
                &&& swept.timers@[id].expiry_time > now
                &&& self.slot_of(swept.timers@[id].expiry_time) == swept.slot_of(
                    swept.timers@[id].expiry_time,
                )
            } by {
                let t = swept.timers@[id].expiry_time;
                if t <= now {
                    swept.lemma_due_place(now, id);
                    let p = swept.place(t);
                    let j = if ahead < count {
                        p - swept.current_tick
                    } else {
                        (p - swept.current_tick) % (count as int)
                    };
                    vstd::arithmetic::div_mod::lemma_add_mod_noop_right(
                        swept.current_tick as int,
                        p - swept.current_tick,
                        count as int,
                    );
                    assert((before.current_tick + j) % (count as int) == swept.slot_of(t));
                }
                if t >= self.start_time && now >= self.start_time {
                    vstd::arithmetic::div_mod::lemma_div_is_ordered(
                        now - self.start_time,
                        t - self.start_time,
                        self.slot_duration as int,
                    );
                }
            }
            assert(self.wf_slots()) by {
                assert forall|s: int| 0 <= s < self.slots@.len() implies self.wf_slot(
                    #[trigger] self.slots@[s]@,
                    s,
                ) by {
                    assert(swept.wf_slot(swept.slots@[s]@, s));
                }
            }
            assert(self@ =~= not_due(before@, now)) by {
                assert forall|id: u64| #[trigger] before@.contains_key(id) && before@[id].expiry_time
                    > now implies self@.contains_key(id) by {
                    if !self@.contains_key(id) {
                        let i = choose|i: int|
                            0 <= i < expired@.len() && (#[trigger] expired@[i]).id == id;
                        assert(before.timers@[expired@[i].id] == expired@[i]);
                    }
                }
            }
        }
        expired
    }

    /// The timers that are kept in the slot `s`.
    spec fn in_slot(&self, s: int) -> Map<u64, TimerEntry<T>> {
        self.timers@.restrict(
            Set::new(|id: u64| self.timers@.contains_key(id) && self.timer_map@[id] == s),
        )
    }

    /// Everything but the timers is as in `other`.
    spec fn same_shape(&self, other: Self) -> bool {
        &&& self.slots@.len() == other.slots@.len()
        &&& self.slot_duration == other.slot_duration
        &&& self.start_time == other.start_time
        &&& self.current_tick == other.current_tick
        &&& self.next_timer_id == other.next_timer_id
    }
}

/// A timer fires once: advancing to `now` and then to `later` takes out each
/// timer that is due at `later`, and none of them twice.
pub proof fn law_each_timer_fires_once<T>(
    timers: Map<u64, TimerEntry<T>>,
    now: u64,
    later: u64,
)
    requires
        now <= later,
    ensures
        due(timers, now).dom().disjoint(due(not_due(timers, now), later).dom()),
        due(timers, later) == due(timers, now).union_prefer_right(
            due(not_due(timers, now), later),
        ),
        not_due(not_due(timers, now), later) == not_due(timers, later),
{
    assert(due(timers, later) =~= due(timers, now).union_prefer_right(
        due(not_due(timers, now), later),
    ));
    assert(not_due(not_due(timers, now), later) =~= not_due(timers, later));
}

/// A cancelled timer never fires, and every other timer fires as if it had not been there.
pub proof fn law_cancelled_timer_never_fires<T>(
    timers: Map<u64, TimerEntry<T>>,
    id: u64,
    now: u64,
)
    ensures
        !due(timers.remove(id), now).contains_key(id),
        due(timers.remove(id), now) == due(timers, now).remove(id),
{
    assert(due(timers.remove(id), now) =~= due(timers, now).remove(id));
}

/// Cancelling a timer that was just added leaves the timers as they were.
pub proof fn law_cancel_undoes_add<T>(timers: Map<u64, TimerEntry<T>>, entry: TimerEntry<T>)
    requires
        !timers.contains_key(entry.id),
    ensures
        timers.insert(entry.id, entry).remove(entry.id) == timers,
{
    assert(timers.insert(entry.id, entry).remove(entry.id) =~= timers);
}

/// A batch of timers is the same as its timers added one by one.
pub proof fn law_batch_is_one_by_one<T>(
    timers: Map<u64, TimerEntry<T>>,
    first: u64,
    batch: Seq<(u64, T)>,
    delay: u64,
    event: T,
    now: u64,
)
    requires
        first + batch.len() < u64::MAX,
    ensures
        ({
            let id = (first + batch.len()) as u64;
            with_batch(timers, first, batch.push((delay, event)), now) == with_batch(
                timers,
                first,
                batch,
                now,
            ).insert(id, TimerEntry { id, expiry_time: (now + delay) as u64, event })
        }),
{
    let id = (first + batch.len()) as u64;
    assert(with_batch(timers, first, batch.push((delay, event)), now) =~= with_batch(
        timers,
        first,
        batch,
        now,
    ).insert(id, TimerEntry { id, expiry_time: (now + delay) as u64, event }));
}

} // verus!
