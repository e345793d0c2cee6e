//! The timer task: it owns the timing wheel, knows which connection each timer
//! belongs to, and keeps count of what happens to timers.

use vstd::prelude::*;

use crate::timer::event::traits::{EventDataTrait, EventFactory};
use crate::timer::event::{ConnectionId, TimerEvent, TimerEventData};
use crate::timer::task::commands::{
    TimerError, TimerTaskCommand, TimerTaskResponse, TimerTaskStats,
};
use crate::timer::task::index::ConnectionIndex;
use crate::timer::task::types::{
    BatchTimerCancellation, BatchTimerRegistration, BatchTimerResult, TimerHandle,
    TimerRegistration,
};
use crate::timer::wheel::{TimerEntry, TimingWheel, TimingWheelStats};

verus! {

/// The slots of the task's wheel.
pub const TASK_SLOT_COUNT: usize = 512;

/// The tick of the task's wheel, in nanoseconds.
pub const TASK_SLOT_DURATION: u64 = 10_000_000;

/// One millisecond in nanoseconds.
pub const MILLISECOND: u64 = 1_000_000;

/// How close to now a wake-up may be, in nanoseconds.
pub const MIN_WAKEUP_DELAY: u64 = 5_000_000;

/// How long to sleep where there is no timer, in nanoseconds.
pub const IDLE_WAKEUP_DELAY: u64 = 1_000_000_000;

/// The state of the task.
#[verifier::ext_equal]
pub struct TaskState<E, C> {
    /// The timers in the wheel.
    pub timers: Map<u64, TimerEntry<TimerEvent<E, C>>>,
    /// The identifier that the next timer gets.
    pub next_id: u64,
    /// The number of timers that have fired.
    pub processed: int,
    /// The number of timers that were cancelled.
    pub cancelled: int,
}

/// The event of the timer `id` that a registration asks for.
pub open spec fn event_for<E, C>(registration: TimerRegistration<E, C>, id: u64) -> TimerEvent<
    E,
    C,
> {
    TimerEvent {
        id,
        data: TimerEventData {
            connection_id: registration.connection_id,
            timeout_event: registration.timeout_event,
        },
        callback: registration.callback,
    }
}

/// Delays and events of the timers that registrations ask for; identifiers
/// count up from `first`.
pub open spec fn batch_for<E, C>(registrations: Seq<TimerRegistration<E, C>>, first: u64) -> Seq<
    (u64, TimerEvent<E, C>),
> {
    Seq::new(
        registrations.len(),
        |i: int| (registrations[i].delay, event_for(registrations[i], (first + i) as u64)),
    )
}

/// The connection of each timer.
pub open spec fn owners<E, C>(timers: Map<u64, TimerEntry<TimerEvent<E, C>>>) -> Map<
    u64,
    ConnectionId,
> {
    timers.map_values(|entry: TimerEntry<TimerEvent<E, C>>| entry.event.data.connection_id)
}

/// The timers that do not belong to `connection`.
pub open spec fn without_connection<E, C>(
    timers: Map<u64, TimerEntry<TimerEvent<E, C>>>,
    connection: ConnectionId,
) -> Map<u64, TimerEntry<TimerEvent<E, C>>> {
    timers.remove_keys(crate::timer::task::index::entries_of(owners(timers), connection))
}

/// Whether the `i`-th of `ids` is a timer that no earlier one of them names.
pub open spec fn cancels<T>(timers: Map<u64, T>, ids: Seq<u64>, i: int) -> bool {
    timers.contains_key(ids[i]) && !ids.take(i).contains(ids[i])
}

/// The positions in `ids` that cancel nothing, with the error for each.
pub open spec fn cancel_failures<T>(timers: Map<u64, T>, ids: Seq<u64>) -> Seq<(usize, TimerError)>
    decreases ids.len(),
{
    if ids.len() == 0 {
        Seq::empty()
    } else {
        let i = ids.len() - 1;
        let before = cancel_failures(timers, ids.drop_last());
        if cancels(timers, ids, i) {
            before
        } else {
            before.push((i as usize, TimerError::TimerNotFound))
        }
    }
}

impl<E, C> TaskState<E, C> {
    /// Whether a registration can be served at `now`: the time and the
    /// identifier that it needs can be represented.
    pub open spec fn can_register(self, registration: TimerRegistration<E, C>, now: u64) -> bool {
        now + registration.delay <= u64::MAX && self.next_id < u64::MAX
    }

    pub open spec fn can_register_all(
        self,
        registrations: Seq<TimerRegistration<E, C>>,
        now: u64,
    ) -> bool {
        &&& forall|i: int|
            0 <= i < registrations.len() ==> now + (#[trigger] registrations[i]).delay <= u64::MAX
        &&& self.next_id + registrations.len() <= u64::MAX
    }

    /// Whether a command can be carried out at `now`.
    pub open spec fn can_handle(self, command: TimerTaskCommand<E, C>, now: u64) -> bool {
        match command {
            TimerTaskCommand::RegisterTimer { registration } => self.can_register(
                registration,
                now,
            ),
            TimerTaskCommand::BatchRegisterTimers { batch_registration } => self.can_register_all(
                batch_registration.registrations@,
                now,
            ),
            _ => true,
        }
    }

    /// This state with the timer that a registration asks for.
    pub open spec fn registered(self, registration: TimerRegistration<E, C>, now: u64) -> Self {
        TaskState {
            timers: self.timers.insert(
                self.next_id,
                TimerEntry {
                    id: self.next_id,
                    expiry_time: (now + registration.delay) as u64,
                    event: event_for(registration, self.next_id),
                },
            ),
            next_id: (self.next_id + 1) as u64,
            ..self
        }
    }

    /// This state with the timers that registrations ask for.
    pub open spec fn batch_registered(
        self,
        registrations: Seq<TimerRegistration<E, C>>,
        now: u64,
    ) -> Self {
        TaskState {
            timers: crate::timer::wheel::with_batch(
                self.timers,
                self.next_id,
                batch_for(registrations, self.next_id),
                now,
            ),
            next_id: (self.next_id + registrations.len()) as u64,
            ..self
        }
    }

    /// This state with only the timers in `left`; the others were cancelled.
    pub open spec fn cancelled_to(self, left: Map<u64, TimerEntry<TimerEvent<E, C>>>) -> Self {
        TaskState {
            timers: left,
            cancelled: self.cancelled + self.timers.dom().len() - left.dom().len(),
            ..self
        }
    }

    /// This state after the timers that are due at `now` have fired.
    pub open spec fn advanced(self, now: u64) -> Self {
        TaskState {
            timers: crate::timer::wheel::not_due(self.timers, now),
            processed: self.processed + crate::timer::wheel::due(self.timers, now).dom().len(),
            ..self
        }
    }

    /// This state after a command.
    pub open spec fn commanded(self, command: TimerTaskCommand<E, C>, now: u64) -> Self {
        match command {
            TimerTaskCommand::RegisterTimer { registration } => self.registered(registration, now),
            TimerTaskCommand::BatchRegisterTimers { batch_registration } => self.batch_registered(
                batch_registration.registrations@,
                now,
            ),
            TimerTaskCommand::CancelTimer { entry_id } => self.cancelled_to(
                self.timers.remove(entry_id),
            ),
            TimerTaskCommand::BatchCancelTimers { batch_cancellation } => self.cancelled_to(
                self.timers.remove_keys(batch_cancellation.entry_ids@.to_set()),
            ),
            TimerTaskCommand::ClearConnectionTimers { connection_id } => self.cancelled_to(
                without_connection(self.timers, connection_id),
            ),
            TimerTaskCommand::GetStats => self,
            TimerTaskCommand::Shutdown => self,
        }
    }

    /// Every timer that was ever registered is in the wheel, has fired, or was
    /// cancelled, and none is counted twice.
    pub open spec fn accounted(self) -> bool {
        &&& self.timers.dom().finite()
        &&& self.timers.dom().len() + self.processed + self.cancelled + 1 == self.next_id
    }
}

/// The timer task.
pub struct GlobalTimerTask<E: EventDataTrait, C> {
    timing_wheel: TimingWheel<TimerEvent<E, C>>,
    index: ConnectionIndex,
    next_event_id: u64,
    processed_timers: u64,
    cancelled_timers: u64,
    event_factory: EventFactory<E>,
}

impl<E: EventDataTrait, C> View for GlobalTimerTask<E, C> {
    type V = TaskState<E, C>;

    closed spec fn view(&self) -> TaskState<E, C> {
        TaskState {
            timers: self.timing_wheel@,
            next_id: self.timing_wheel.next_id(),
            processed: self.processed_timers as int,
            cancelled: self.cancelled_timers as int,
        }
    }
}

impl<E: EventDataTrait, C> GlobalTimerTask<E, C> {
    /// The wheel, the connections and the counts agree.
    pub closed spec fn wf(&self) -> bool {
        &&& self.timing_wheel.wf()
        &&& self.index.wf()
        &&& self.index@ == owners(self.timing_wheel@)
        &&& self.timing_wheel.spec_slot_count() == TASK_SLOT_COUNT
        &&& self.next_event_id == self.timing_wheel.next_id()
        &&& self@.accounted()
    }

    /// The wheel, for what the statistics say of it.
    pub closed spec fn wheel(&self) -> TimingWheel<TimerEvent<E, C>> {
        self.timing_wheel
    }

    /// Timers are neither lost nor counted twice: at any time, those in the
    /// wheel, those that have fired and those that were cancelled are all that
    /// were ever registered.
    pub proof fn law_timers_are_accounted_for(&self)
        requires
            self.wf(),
        ensures
            self@.accounted(),
    {
    }

    /// The timers are those in the wheel, and so the slots that the figures count
    /// follow from the timers and from the ring.
    pub proof fn law_wheel_holds_the_timers(&self)
        requires
            self.wf(),
        ensures
            self.wheel()@ == self@.timers,
            self.wheel().next_id() == self@.next_id,
            self.wheel().spec_slot_count() == TASK_SLOT_COUNT,
            self.wheel().wf(),
    {
    }

    /// A task without timers.
    pub fn new(now: u64) -> (task: Self)
        ensures
            task.wf(),
            task@ == (TaskState {
                timers: Map::<u64, TimerEntry<TimerEvent<E, C>>>::empty(),
                next_id: 1,
                processed: 0,
                cancelled: 0,
            }),
            task.wheel().spec_slot_duration() == TASK_SLOT_DURATION,
            task.wheel().spec_start_time() == now,
            task.wheel().spec_current_tick() == 0,
    {
        assert(512usize & 511usize == 0) by (bit_vector);
        let task = GlobalTimerTask {
            timing_wheel: TimingWheel::new(TASK_SLOT_COUNT, TASK_SLOT_DURATION, now),
            index: ConnectionIndex::new(),
            next_event_id: 1,
            processed_timers: 0,
            cancelled_timers: 0,
            event_factory: EventFactory::new(),
        };
        assert(task.index@ =~= owners(task.timing_wheel@));
        task
    }

    /// Registers a timer, and answers with a handle to it.
    pub fn register_timer(&mut self, registration: TimerRegistration<E, C>, now: u64) -> (result:
        Result<TimerHandle, TimerError>)
        requires
            old(self).wf(),
            old(self)@.can_register(registration, now),
        ensures
            final(self).wf(),
            final(self)@ == old(self)@.registered(registration, now),
            final(self).wheel().same_ring(old(self).wheel()),
            result == Ok::<TimerHandle, TimerError>(
                TimerHandle { entry_id: old(self)@.next_id },
            ),
    {
        let event_id = self.next_event_id;
        self.next_event_id = event_id + 1;
        let connection_id = registration.connection_id;
        let delay = registration.delay;
        let data = self.event_factory.create_event(connection_id, registration.timeout_event);
        let timer_event = TimerEvent::new(event_id, data, registration.callback);
        let entry_id = self.timing_wheel.add_timer(delay, timer_event, now);
        self.index.link(entry_id, connection_id);
        assert(self.index@ =~= owners(self.timing_wheel@));
        Ok(TimerHandle::new(entry_id))
    }

    /// Cancels a timer, and says whether there was one.
    pub fn cancel_timer(&mut self, entry_id: u64) -> (cancelled: bool)
        requires
            old(self).wf(),
        ensures
            final(self).wf(),
            cancelled == old(self)@.timers.contains_key(entry_id),
            final(self)@ == old(self)@.cancelled_to(old(self)@.timers.remove(entry_id)),
            final(self).wheel().same_ring(old(self).wheel()),
    {
        let cancelled = self.timing_wheel.cancel_timer(entry_id);
        if cancelled {
            self.index.unlink(entry_id);
            assert(self.index@ =~= owners(self.timing_wheel@));
            self.cancelled_timers = self.cancelled_timers + 1;
        } else {
            assert(self.timing_wheel@ =~= old(self).timing_wheel@);
        }
        cancelled
    }

    /// Cancels the timers of a connection, and says how many there were.
    pub fn clear_connection_timers(&mut self, connection_id: ConnectionId) -> (count: usize)
        requires
            old(self).wf(),
        ensures
            final(self).wf(),
            final(self)@ == old(self)@.cancelled_to(
                without_connection(old(self)@.timers, connection_id),
            ),
            final(self).wheel().same_ring(old(self).wheel()),
            count == old(self)@.timers.dom().len() - final(self)@.timers.dom().len(),
    {
        let entry_ids = self.index.entries(connection_id);
        let ghost before = self@;
        let mut count: usize = 0;
        let mut i: usize = 0;
        assert(before.timers.remove_keys(entry_ids@.take(0).to_set()) =~= before.timers);
        while i < entry_ids.len()
            invariant
                i <= entry_ids@.len(),
                self.wf(),
                self.wheel().same_ring(old(self).wheel()),
                entry_ids@.no_duplicates(),
                before.timers.dom().finite(),
                self@.timers == before.timers.remove_keys(entry_ids@.take(i as int).to_set()),
                self@ == before.cancelled_to(self@.timers),
                count <= i,
                count == before.timers.dom().len() - self@.timers.dom().len(),
            decreases entry_ids@.len() - i,
        {
            let ghost mid = self@;
            if self.cancel_timer(entry_ids[i]) {
                count = count + 1;
            }
            proof {
                crate::collections::lemma_take_to_set(entry_ids@, i as int);
                assert(self@.timers =~= before.timers.remove_keys(
                    entry_ids@.take(i + 1).to_set(),
                ));
                if !mid.timers.contains_key(entry_ids@[i as int]) {
                    assert(self@.timers =~= mid.timers);
                }
            }
            i = i + 1;
        }
        assert(entry_ids@.take(entry_ids@.len() as int) == entry_ids@);
        count
    }

    /// Registers several timers, under consecutive identifiers, and answers with
    /// a handle to each.
    pub fn batch_register_timers(
        &mut self,
        batch_registration: BatchTimerRegistration<E, C>,
        now: u64,
    ) -> (result: BatchTimerResult<TimerHandle>)
        requires
            old(self).wf(),
            old(self)@.can_register_all(batch_registration.registrations@, now),
        ensures
            final(self).wf(),
            final(self)@ == old(self)@.batch_registered(batch_registration.registrations@, now),
            final(self).wheel().same_ring(old(self).wheel()),
            result.failures@.len() == 0,
            result.successes@ == Seq::new(
                batch_registration.registrations@.len(),
                |i: int| TimerHandle { entry_id: (old(self)@.next_id + i) as u64 },
            ),
    {
        let registrations = batch_registration.registrations;
        let ghost regs = registrations@;
        let ghost before = self@;
        let ghost first = self@.next_id;
        let total_count = registrations.len();
        let start_event_id = self.next_event_id;
        let mut result: BatchTimerResult<TimerHandle> = BatchTimerResult::with_capacity(total_count);
        let mut timers_for_wheel: Vec<(u64, TimerEvent<E, C>)> = Vec::with_capacity(total_count);
        let mut connections: Vec<ConnectionId> = Vec::with_capacity(total_count);
        for registration in iter: registrations
            invariant
                iter.seq() == regs,
                first == start_event_id,
                first + regs.len() <= u64::MAX,
                timers_for_wheel@ == batch_for(regs, first).take(iter.index()),
                connections@ == Seq::new(
                    iter.index() as nat,
                    |i: int| regs[i].connection_id,
                ),
        {
            let event_id: u64 = start_event_id + timers_for_wheel.len() as u64;
            let connection_id = registration.connection_id;
            let delay = registration.delay;
            let data = self.event_factory.create_event(connection_id, registration.timeout_event);
            let timer_event = TimerEvent::new(event_id, data, registration.callback);
            assert((delay, timer_event) == batch_for(regs, first)[iter.index()]);
            timers_for_wheel.push((delay, timer_event));
            connections.push(connection_id);
            assert(timers_for_wheel@ =~= batch_for(regs, first).take(iter.index() + 1));
            assert(connections@ =~= Seq::new(
                (iter.index() + 1) as nat,
                |i: int| regs[i].connection_id,
            ));
        }
        assert(batch_for(regs, first).take(regs.len() as int) =~= batch_for(regs, first));
        self.next_event_id = start_event_id + total_count as u64;
        proof {
            self.timing_wheel.lemma_timers();
        }
        let entry_ids = self.timing_wheel.batch_add_timers(timers_for_wheel, now);
        let ghost after = owners(self.timing_wheel@);
        let mut i: usize = 0;
        while i < entry_ids.len()
            invariant
                i <= entry_ids@.len(),
                entry_ids@ == Seq::new(regs.len(), |k: int| (first + k) as u64),
                first + regs.len() <= u64::MAX,
                connections@ == Seq::new(regs.len(), |k: int| regs[k].connection_id),
                self.index.wf(),
                self.index@.dom() == before.timers.dom().union(
                    Set::new(|id: u64| first <= id < first + i),
                ),
                forall|id: u64| #[trigger]
                    self.index@.contains_key(id) ==> self.index@[id] == after[id],
                after == owners(
                    crate::timer::wheel::with_batch(
                        before.timers,
                        first,
                        batch_for(regs, first),
                        now,
                    ),
                ),
                forall|id: u64| #[trigger] before.timers.contains_key(id) ==> id < first,
                self.timing_wheel@ == crate::timer::wheel::with_batch(
                    before.timers,
                    first,
                    batch_for(regs, first),
                    now,
                ),
                self.timing_wheel.wf(),
                self.timing_wheel.spec_slot_count() == TASK_SLOT_COUNT,
                self.timing_wheel.same_ring(old(self).timing_wheel),
                self.timing_wheel.next_id() == first + regs.len(),
                self.next_event_id == first + regs.len(),
                self.processed_timers == before.processed,
                self.cancelled_timers == before.cancelled,
                result.failures@.len() == 0,
                result.successes@ == Seq::new(
                    i as nat,
                    |k: int| TimerHandle { entry_id: (first + k) as u64 },
                ),
            decreases entry_ids@.len() - i,
        {
            let entry_id: u64 = entry_ids[i];
            let ghost mid = self.index@;
            self.index.link(entry_id, connections[i]);
            result.successes.push(TimerHandle::new(entry_id));
            assert(self.index@.dom() =~= before.timers.dom().union(
                Set::new(|id: u64| first <= id < first + i + 1),
            ));
            assert(after[entry_id] == batch_for(regs, first)[i as int].1.data.connection_id);
            assert(result.successes@ =~= Seq::new(
                (i + 1) as nat,
                |k: int| TimerHandle { entry_id: (first + k) as u64 },
            ));
            i = i + 1;
        }
        proof {
            assert(self.index@ =~= after);
            let new = Set::new(|id: u64| first <= id < first + regs.len());
            lemma_id_range(first, regs.len());
            vstd::set_lib::lemma_set_disjoint_lens(before.timers.dom(), new);
            assert(self@.timers.dom() =~= before.timers.dom() + new);
        }
        result
    }

    /// Cancels several timers. A timer that is not there, or that an earlier
    /// entry of the batch has cancelled, is reported as not found.
    pub fn batch_cancel_timers(&mut self, batch_cancellation: BatchTimerCancellation) -> (result:
        BatchTimerResult<bool>)
        requires
            old(self).wf(),
        ensures
            final(self).wf(),
            final(self)@ == old(self)@.cancelled_to(
                old(self)@.timers.remove_keys(batch_cancellation.entry_ids@.to_set()),
            ),
            final(self).wheel().same_ring(old(self).wheel()),
            result.failures@ == cancel_failures(
                old(self)@.timers,
                batch_cancellation.entry_ids@,
            ),
            result.successes@ == Seq::new(
                (batch_cancellation.entry_ids@.len() - result.failures@.len()) as nat,
                |i: int| true,
            ),
            result.successes@.len() == old(self)@.timers.dom().len()
                - final(self)@.timers.dom().len(),
    {
        let entry_ids = batch_cancellation.entry_ids;
        let ghost ids = entry_ids@;
        let ghost before = self@;
        let mut result: BatchTimerResult<bool> = BatchTimerResult::with_capacity(entry_ids.len());
        let ghost was = owners(before.timers);
        self.timing_wheel.batch_cancel_timers(&entry_ids);
        let mut i: usize = 0;
        assert(was.remove_keys(ids.take(0).to_set()) =~= was);
        assert(before.timers.dom() =~= was.dom());
        while i < entry_ids.len()
            invariant
                i <= ids.len(),
                entry_ids@ == ids,
                self.index.wf(),
                was == owners(before.timers),
                before.timers.dom() == was.dom(),
                before.accounted(),
                self.index@ == was.remove_keys(ids.take(i as int).to_set()),
                self.timing_wheel.wf(),
                self.timing_wheel.spec_slot_count() == TASK_SLOT_COUNT,
                self.timing_wheel.same_ring(old(self).timing_wheel),
                self.timing_wheel@ == before.timers.remove_keys(ids.to_set()),
                self.timing_wheel.next_id() == before.next_id,
                self.next_event_id == before.next_id,
                self.processed_timers == before.processed,
                self.cancelled_timers == before.cancelled + result.successes@.len(),
                result.successes@.len() == was.dom().len() - self.index@.dom().len(),
                result.successes@ == Seq::new(result.successes@.len(), |k: int| true),
                result.failures@ == cancel_failures(before.timers, ids.take(i as int)),
                result.successes@.len() + result.failures@.len() == i,
            decreases ids.len() - i,
        {
            let entry_id: u64 = entry_ids[i];
            let ghost mid = self.index@;
            proof {
                let more = ids.take(i + 1);
                crate::collections::lemma_take_to_set(ids, i as int);
                assert(more.drop_last() =~= ids.take(i as int));
                assert(more.take(i as int) =~= ids.take(i as int));
                assert(mid.dom().finite()) by {
                    assert(mid.dom() =~= was.dom().difference(ids.take(i as int).to_set()));
                }
                assert(mid.contains_key(entry_id) == cancels(before.timers, more, i as int));
                assert(mid.remove(entry_id) =~= was.remove_keys(more.to_set()));
                assert(self.index@.dom().len() <= was.dom().len());
            }
            if self.index.unlink(entry_id).is_some() {
                self.cancelled_timers = self.cancelled_timers + 1;
                result.successes.push(true);
            } else {
                assert(mid.remove(entry_id) =~= mid);
                result.failures.push((i, TimerError::TimerNotFound));
            }
            i = i + 1;
        }
        proof {
            self.timing_wheel.lemma_timers();
            assert(ids.take(ids.len() as int) =~= ids);
            assert(self.index@ =~= owners(self.timing_wheel@));
            assert(self.index@.dom() =~= self@.timers.dom());
        }
        result
    }

    /// Takes out the timers that are due at `now`, to be reported to their callbacks.
    pub fn advance_timing_wheel(&mut self, now: u64) -> (expired: Vec<
        TimerEntry<TimerEvent<E, C>>,
    >)
        requires
            old(self).wf(),
        ensures
            final(self).wf(),
            final(self)@ == old(self)@.advanced(now),
            final(self).wheel().ring_moved(old(self).wheel(), now),
            crate::timer::wheel::enumerates(
                expired@,
                crate::timer::wheel::due(old(self)@.timers, now),
            ),
    {
        let ghost before = self@;
        let ghost was = owners(before.timers);
        let expired = self.timing_wheel.advance(now);
        let ghost fired = crate::timer::wheel::due(before.timers, now);
        let ghost gone = expired@.map_values(|e: TimerEntry<TimerEvent<E, C>>| e.id);
        let mut i: usize = 0;
        assert(was.remove_keys(gone.take(0).to_set()) =~= was);
        while i < expired.len()
            invariant
                i <= expired@.len(),
                gone == expired@.map_values(|e: TimerEntry<TimerEvent<E, C>>| e.id),
                self.index.wf(),
                self.index@ == was.remove_keys(gone.take(i as int).to_set()),
                self.timing_wheel.wf(),
                self.timing_wheel.spec_slot_count() == TASK_SLOT_COUNT,
                self.timing_wheel.ring_moved(old(self).timing_wheel, now),
                self.timing_wheel@ == crate::timer::wheel::not_due(before.timers, now),
                self.timing_wheel.next_id() == before.next_id,
                self.next_event_id == before.next_id,
                self.processed_timers == before.processed,
                self.cancelled_timers == before.cancelled,
            decreases expired@.len() - i,
        {
            self.index.unlink(expired[i].id);
            proof {
                crate::collections::lemma_take_to_set(gone, i as int);
                assert(self.index@ =~= was.remove_keys(gone.take(i + 1).to_set()));
            }
            i = i + 1;
        }
        proof {
            assert(gone.take(gone.len() as int) =~= gone);
            lemma_enumeration(expired@, fired);
            self.timing_wheel.lemma_timers();
            assert(gone.to_set() =~= fired.dom());
            assert(self.index@ =~= owners(self.timing_wheel@));
            vstd::set_lib::lemma_set_disjoint_lens(self.timing_wheel@.dom(), fired.dom());
            assert(before.timers.dom() =~= self.timing_wheel@.dom() + fired.dom());
        }
        self.processed_timers = self.processed_timers + expired.len() as u64;
        expired
    }

    /// Whether the times and the identifiers that a command needs can be
    /// represented.
    pub fn can_handle(&self, command: &TimerTaskCommand<E, C>, now: u64) -> (can: bool)
        requires
            self.wf(),
        ensures
            can == self@.can_handle(*command, now),
    {
        match command {
            TimerTaskCommand::RegisterTimer { registration } => registration.delay <= u64::MAX
                - now && self.next_event_id < u64::MAX,
            TimerTaskCommand::BatchRegisterTimers { batch_registration } => {
                let registrations = batch_registration.registrations.as_slice();
                let mut i: usize = 0;
                while i < registrations.len()
                    invariant
                        i <= registrations@.len(),
                        registrations@ == batch_registration.registrations@,
                        *command == (TimerTaskCommand::BatchRegisterTimers {
                            batch_registration: *batch_registration,
                        }),
                        forall|k: int|
                            0 <= k < i ==> now + (#[trigger] registrations@[k]).delay <= u64::MAX,
                    decreases registrations@.len() - i,
                {
                    if registrations[i].delay > u64::MAX - now {
                        return false;
                    }
                    i = i + 1;
                }
                registrations.len() as u64 <= u64::MAX - self.next_event_id
            },
            _ => true,
        }
    }

    /// Carries out a command, and gives the answer to it.
    pub fn handle_command(&mut self, command: TimerTaskCommand<E, C>, now: u64) -> (response:
        TimerTaskResponse)
        requires
            old(self).wf(),
            old(self)@.can_handle(command, now),
        ensures
            final(self).wf(),
            final(self)@ == old(self)@.commanded(command, now),
            final(self).wheel().same_ring(old(self).wheel()),
            answered(*old(self), command, now, response),
    {
        match command {
            TimerTaskCommand::RegisterTimer { registration } => TimerTaskResponse::Registered(
                self.register_timer(registration, now),
            ),
            TimerTaskCommand::BatchRegisterTimers {
                batch_registration,
            } => TimerTaskResponse::BatchRegistered(
                self.batch_register_timers(batch_registration, now),
            ),
            TimerTaskCommand::CancelTimer { entry_id } => TimerTaskResponse::Cancelled(
                self.cancel_timer(entry_id),
            ),
            TimerTaskCommand::BatchCancelTimers {
                batch_cancellation,
            } => TimerTaskResponse::BatchCancelled(self.batch_cancel_timers(batch_cancellation)),
            TimerTaskCommand::ClearConnectionTimers {
                connection_id,
            } => TimerTaskResponse::Cleared(self.clear_connection_timers(connection_id)),
            TimerTaskCommand::GetStats => TimerTaskResponse::Stats(self.get_stats()),
            TimerTaskCommand::Shutdown => TimerTaskResponse::ShuttingDown,
        }
    }

    /// Figures on the task as it is now.
    pub fn get_stats(&self) -> (stats: TimerTaskStats)
        requires
            self.wf(),
        ensures
            stats.total_timers == self@.timers.dom().len(),
            stats.active_connections == owners(self@.timers).values().len(),
            stats.processed_timers == self@.processed,
            stats.cancelled_timers == self@.cancelled,
            stats.wheel_stats.total_slots == TASK_SLOT_COUNT,
            stats.wheel_stats.non_empty_slots == self.wheel().occupied().len(),
            stats.wheel_stats.total_timers == self@.timers.dom().len(),
    {
        TimerTaskStats {
            total_timers: self.timing_wheel.timer_count(),
            active_connections: self.index.connection_count(),
            processed_timers: self.processed_timers,
            cancelled_timers: self.cancelled_timers,
            wheel_stats: self.timing_wheel.stats(),
        }
    }

    /// The time between two advances, in nanoseconds: the more timers, the shorter.
    pub fn calculate_advance_interval(&self) -> (interval: u64)
        requires
            self.wf(),
        ensures
            interval == advance_interval(self@.timers.dom().len()),
    {
        let timer_count = self.timing_wheel.timer_count();
        let interval_ms: u64 = if timer_count < 100 {
            100
        } else if timer_count < 1000 {
            50
        } else if timer_count < 5000 {
            20
        } else {
            10
        };
        interval_ms * MILLISECOND
    }

    /// When to wake up next: when the first timer is due, but not sooner than a
    /// few milliseconds from now; a second from now where there is no timer.
    pub fn get_next_wakeup_time(&mut self, now: u64) -> (wakeup: u64)
        requires
            old(self).wf(),
            now + IDLE_WAKEUP_DELAY <= u64::MAX,
        ensures
            final(self).wf(),
            final(self)@ == old(self)@,
            final(self).wheel().same_ring(old(self).wheel()),
            exists|next: Option<u64>| #[trigger]
                crate::timer::wheel::is_next_expiry(old(self)@.timers, next) && wakeup
                    == wakeup_for(next, now),
    {
        let next = self.timing_wheel.next_expiry_time();
        match next {
            Some(expiry) => if expiry <= now + MIN_WAKEUP_DELAY {
                now + MIN_WAKEUP_DELAY
            } else {
                expiry
            },
            None => now + IDLE_WAKEUP_DELAY,
        }
    }
}

/// Whether `response` answers `command` where the task was `before`.
pub open spec fn answered<E: EventDataTrait, C>(
    before: GlobalTimerTask<E, C>,
    command: TimerTaskCommand<E, C>,
    now: u64,
    response: TimerTaskResponse,
) -> bool {
    match (command, response) {
        (
            TimerTaskCommand::RegisterTimer { .. },
            TimerTaskResponse::Registered(result),
        ) => result == Ok::<TimerHandle, TimerError>(
            TimerHandle { entry_id: before@.next_id },
        ),
        (
            TimerTaskCommand::BatchRegisterTimers { batch_registration },
            TimerTaskResponse::BatchRegistered(result),
        ) => {
            &&& result.failures@.len() == 0
            &&& result.successes@ == Seq::new(
                batch_registration.registrations@.len(),
                |i: int| TimerHandle { entry_id: (before@.next_id + i) as u64 },
            )
        },
        (
            TimerTaskCommand::CancelTimer { entry_id },
            TimerTaskResponse::Cancelled(cancelled),
        ) => cancelled == before@.timers.contains_key(entry_id),
        (
            TimerTaskCommand::BatchCancelTimers { batch_cancellation },
            TimerTaskResponse::BatchCancelled(result),
        ) => {
            &&& result.failures@ == cancel_failures(
                before@.timers,
                batch_cancellation.entry_ids@,
            )
            &&& result.successes@ == Seq::new(
                (batch_cancellation.entry_ids@.len() - result.failures@.len()) as nat,
                |i: int| true,
            )
        },
        (
            TimerTaskCommand::ClearConnectionTimers { .. },
            TimerTaskResponse::Cleared(count),
        ) => count == before@.timers.dom().len() - before@.commanded(command, now).timers.dom().len(),
        (TimerTaskCommand::GetStats, TimerTaskResponse::Stats(stats)) => {
            &&& stats.total_timers == before@.timers.dom().len()
            &&& stats.active_connections == owners(before@.timers).values().len()
            &&& stats.processed_timers == before@.processed
            &&& stats.cancelled_timers == before@.cancelled
            &&& stats.wheel_stats.total_slots == TASK_SLOT_COUNT
            &&& stats.wheel_stats.non_empty_slots == before.wheel().occupied().len()
            &&& stats.wheel_stats.total_timers == before@.timers.dom().len()
        },
        (TimerTaskCommand::Shutdown, TimerTaskResponse::ShuttingDown) => true,
        _ => false,
    }
}

/// The time between two advances with `timers` timers, in nanoseconds.
pub open spec fn advance_interval(timers: nat) -> int {
    MILLISECOND * if timers < 100 {
        100
    } else if timers < 1000 {
        50
    } else if timers < 5000 {
        20
    } else {
        10int
    }
}

/// When to wake up where the first timer is due at `next`.
pub open spec fn wakeup_for(next: Option<u64>, now: u64) -> int {
    match next {
        Some(expiry) => if expiry <= now + MIN_WAKEUP_DELAY {
            now + MIN_WAKEUP_DELAY
        } else {
            expiry as int
        },
        None => now + IDLE_WAKEUP_DELAY,
    }
}

/// A range of identifiers has as many elements as its length says.
proof fn lemma_id_range(first: u64, n: nat)
    requires
        first + n <= u64::MAX,
    ensures
        Set::new(|id: u64| first <= id < first + n).finite(),
        Set::new(|id: u64| first <= id < first + n).len() == n,
    decreases n,
{
    let ids = Set::new(|id: u64| first <= id < first + n);
    if n == 0 {
        assert(ids =~= Set::empty());
    } else {
        let m = (n - 1) as nat;
        let fewer = Set::new(|id: u64| first <= id < first + m);
        lemma_id_range(first, m);
        assert(ids =~= fewer.insert((first + m) as u64));
    }
}

/// A list of all timers is as long as there are timers.
proof fn lemma_enumeration<T>(entries: Seq<TimerEntry<T>>, timers: Map<u64, TimerEntry<T>>)
    requires
        crate::timer::wheel::enumerates(entries, timers),
    ensures
        entries.map_values(|e: TimerEntry<T>| e.id).to_set() == timers.dom(),
        entries.len() == timers.dom().len(),
        timers.dom().finite(),
{
    let ids = entries.map_values(|e: TimerEntry<T>| e.id);
    assert(ids.no_duplicates()) by {
        assert forall|i: int, j: int| 0 <= i < ids.len() && 0 <= j < ids.len() && i
            != j implies ids[i] != ids[j] by {
            assert(entries[i].id == ids[i] && entries[j].id == ids[j]);
        }
    }
    assert(ids.to_set() =~= timers.dom()) by {
        assert forall|id: u64| timers.dom().contains(id) implies ids.to_set().contains(id) by {
            assert(timers.contains_key(id));
            let i = choose|i: int| 0 <= i < entries.len() && (#[trigger] entries[i]).id == id;
            assert(ids[i] == id);
        }
        assert forall|id: u64| ids.to_set().contains(id) implies timers.dom().contains(id) by {
            let i = choose|i: int| 0 <= i < ids.len() && ids[i] == id;
            assert(entries[i].id == id);
        }
    }
    ids.unique_seq_to_set();
    vstd::seq_lib::seq_to_set_is_finite(ids);
}

/// Cancelling a timer that was just registered leaves the timers as they were.
pub proof fn law_cancel_undoes_register<E, C>(
    state: TaskState<E, C>,
    registration: TimerRegistration<E, C>,
    now: u64,
)
    requires
        state.can_register(registration, now),
        !state.timers.contains_key(state.next_id),
        state.timers.dom().finite(),
    ensures
        ({
            let after = state.registered(registration, now);
            let undone = after.cancelled_to(after.timers.remove(state.next_id));
            undone.timers == state.timers && undone.cancelled == state.cancelled + 1
        }),
{
    let after = state.registered(registration, now);
    assert(after.timers.remove(state.next_id) =~= state.timers);
}

/// A batch of registrations is the same as its registrations one by one.
pub proof fn law_batch_register_is_one_by_one<E, C>(
    state: TaskState<E, C>,
    registrations: Seq<TimerRegistration<E, C>>,
    last: TimerRegistration<E, C>,
    now: u64,
)
    requires
        state.can_register_all(registrations.push(last), now),
    ensures
        state.batch_registered(registrations.push(last), now) == state.batch_registered(
            registrations,
            now,
        ).registered(last, now),
        state.batch_registered(Seq::empty(), now) == state,
{
    let id = (state.next_id + registrations.len()) as u64;
    let all = registrations.push(last);
    assert(batch_for(all, state.next_id) =~= batch_for(registrations, state.next_id).push(
        (last.delay, event_for(last, id)),
    ));
    crate::timer::wheel::law_batch_is_one_by_one(
        state.timers,
        state.next_id,
        batch_for(registrations, state.next_id),
        last.delay,
        event_for(last, id),
        now,
    );
    assert(state.batch_registered(Seq::empty(), now).timers =~= state.timers);
}

/// Clearing a connection takes all of its timers and no others, and clearing it
/// again takes nothing.
pub proof fn law_clear_takes_one_connection<E, C>(
    timers: Map<u64, TimerEntry<TimerEvent<E, C>>>,
    connection: ConnectionId,
    id: u64,
)
    ensures
        ({
            let left = without_connection(timers, connection);
            &&& left.contains_key(id) <==> timers.contains_key(id)
                && timers[id].event.data.connection_id != connection
            &&& left.contains_key(id) ==> left[id] == timers[id]
            &&& without_connection(left, connection) == left
        }),
{
    let left = without_connection(timers, connection);
    assert(without_connection(left, connection) =~= left);
}

} // verus!
