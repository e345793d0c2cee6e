//! A timer task that works off large batches of due timers in parallel.

use vstd::prelude::*;

use crate::timer::event::traits::EventDataTrait;
use crate::timer::event::{ConnectionId, TimerEvent, TimerEventData};
use crate::timer::parallel::async_dispatcher::AsyncEventDispatcher;
use crate::timer::parallel::single_thread_bypass;
use crate::timer::parallel::system;
use crate::timer::parallel::system::{HybridParallelTimerSystem, ProcessingResult};
use crate::timer::parallel::types::{ParallelProcessingResult, ParallelProcessingStats};
use crate::timer::task::commands::{
    TimerError, TimerTaskCommand, TimerTaskResponse, TimerTaskStats,
};
use crate::timer::task::global;
use crate::timer::task::global::{GlobalTimerTask, TaskState};
use crate::timer::task::types::{
    BatchTimerCancellation, BatchTimerRegistration, BatchTimerResult, TimerHandle,
    TimerRegistration,
};
use crate::timer::wheel;
use crate::timer::wheel::TimerEntry;

verus! {

/// The size from which on batches are worked off in parallel, by default.
pub const DEFAULT_PARALLEL_THRESHOLD: usize = 32;

/// A fired timer that its callback is to be told of.
#[derive(Debug)]
pub struct TimerNotification<E, C> {
    pub entry_id: u64,
    pub callback: C,
    pub data: TimerEventData<E>,
}

/// What an advance of the task asks its caller to do.
pub struct HybridAdvance<E, C> {
    /// The callbacks to be told.
    pub notifications: Vec<TimerNotification<E, C>>,
    /// What was done with a batch that was worked off in parallel, and the events
    /// that are to be sent by channels.
    pub batch: Option<(ProcessingResult, Option<Vec<(usize, TimerEventData<E>)>>)>,
}

/// Whether `notifications` tell of the timers `expired`, in their order.
pub open spec fn notifications_of<E: Clone, C: Clone>(
    notifications: Seq<TimerNotification<E, C>>,
    expired: Seq<TimerEntry<TimerEvent<E, C>>>,
) -> bool {
    &&& notifications.len() == expired.len()
    &&& forall|i: int|
        0 <= i < notifications.len() ==> {
            &&& (#[trigger] notifications[i]).entry_id == expired[i].id
            &&& cloned(expired[i].event.callback, notifications[i].callback)
            &&& notifications[i].data.connection_id == expired[i].event.data.connection_id
            &&& cloned(expired[i].event.data.timeout_event, notifications[i].data.timeout_event)
        }
}

/// Whether `advance` and `after` are what comes of the timers `expired`: all of
/// them are told of, and a batch of at least `threshold` timers goes through the
/// parallel system.
pub open spec fn advanced_with<E: EventDataTrait, C: Clone>(
    before: HybridParallelTimerSystem<E>,
    threshold: usize,
    expired: Seq<TimerEntry<TimerEvent<E, C>>>,
    after: HybridParallelTimerSystem<E>,
    advance: HybridAdvance<E, C>,
) -> bool {
    &&& notifications_of(advance.notifications@, expired)
    &&& if expired.len() > 0 && expired.len() >= threshold {
        &&& advance.batch is Some
        &&& system::worked_off(
            before,
            expired,
            single_thread_bypass::mode_for(
                expired.len() as usize,
                before.selector().threads(),
                after.selector().in_runtime(),
            ) is SingleThreadDirect,
            after,
            advance.batch->0,
        )
        &&& single_thread_bypass::runtime_answer(after.selector().in_runtime())
    } else {
        advance.batch is None && after == before
    }
}

/// Each timer that is due is told of once, to its own callback, and no other
/// timer is told of.
pub proof fn law_each_due_timer_is_told_of_once<E: Clone, C: Clone>(
    notifications: Seq<TimerNotification<E, C>>,
    expired: Seq<TimerEntry<TimerEvent<E, C>>>,
    timers: Map<u64, TimerEntry<TimerEvent<E, C>>>,
    now: u64,
)
    requires
        wheel::enumerates(expired, wheel::due(timers, now)),
        notifications_of(notifications, expired),
    ensures
        forall|id: u64| #[trigger]
            wheel::due(timers, now).contains_key(id) ==> exists|i: int|
                0 <= i < notifications.len() && (#[trigger] notifications[i]).entry_id == id,
        forall|i: int, j: int|
            0 <= i < j < notifications.len() ==> (#[trigger] notifications[i]).entry_id
                != (#[trigger] notifications[j]).entry_id,
        forall|i: int|
            0 <= i < notifications.len() ==> {
                let id = (#[trigger] notifications[i]).entry_id;
                &&& wheel::due(timers, now).contains_key(id)
                &&& cloned(timers[id].event.callback, notifications[i].callback)
            },
{
    let due = wheel::due(timers, now);
    assert forall|id: u64| #[trigger] due.contains_key(id) implies exists|i: int|
        0 <= i < notifications.len() && (#[trigger] notifications[i]).entry_id == id by {
        assert(wheel::lists(expired, id));
        let i = choose|i: int| 0 <= i < expired.len() && (#[trigger] expired[i]).id == id;
        assert(notifications[i].entry_id == id);
    }
    assert forall|i: int, j: int| 0 <= i < j < notifications.len() implies (
    #[trigger] notifications[i]).entry_id != (#[trigger] notifications[j]).entry_id by {
        assert(expired[i].id != expired[j].id);
    }
    assert forall|i: int| 0 <= i < notifications.len() implies {
        let id = (#[trigger] notifications[i]).entry_id;
        &&& due.contains_key(id)
        &&& cloned(timers[id].event.callback, notifications[i].callback)
    } by {
        assert(due.contains_key(expired[i].id));
        assert(due[expired[i].id] == expired[i]);
    }
}

/// What is told of the timers `expired`.
fn notifications_for<E: EventDataTrait, C: Clone>(
    expired: &[TimerEntry<TimerEvent<E, C>>],
) -> (notifications: Vec<TimerNotification<E, C>>)
    ensures
        notifications_of(notifications@, expired@),
{
    let mut notifications: Vec<TimerNotification<E, C>> = Vec::with_capacity(expired.len());
    let mut i: usize = 0;
    while i < expired.len()
        invariant
            i <= expired@.len(),
            notifications_of(notifications@, expired@.take(i as int)),
        decreases expired@.len() - i,
    {
        let ghost before = notifications@;
        let entry = &expired[i];
        notifications.push(
            TimerNotification {
                entry_id: entry.id,
                callback: entry.event.callback.clone(),
                data: entry.event.data.clone(),
            },
        );
        proof {
            assert forall|k: int| 0 <= k < i implies #[trigger] notifications@[k] == before[k]
                && expired@.take(i + 1)[k] == expired@.take(i as int)[k] by {}
            assert(expired@.take(i + 1)[i as int] == expired@[i as int]);
        }
        i = i + 1;
    }
    assert(expired@.take(expired@.len() as int) =~= expired@);
    notifications
}

/// The timer task with a parallel system for large batches.
#[verifier::reject_recursive_types(E)]
pub struct HybridTimerTask<E: EventDataTrait, C> {
    task: GlobalTimerTask<E, C>,
    parallel_system: HybridParallelTimerSystem<E>,
    parallel_threshold: usize,
}

impl<E: EventDataTrait, C> View for HybridTimerTask<E, C> {
    type V = TaskState<E, C>;

    closed spec fn view(&self) -> TaskState<E, C> {
        self.task@
    }
}

impl<E: EventDataTrait, C: Clone + Sync> HybridTimerTask<E, C> {
    pub closed spec fn wf(&self) -> bool {
        self.task.wf() && self.parallel_system.wf()
    }

    /// The part that owns the timers.
    pub closed spec fn base(&self) -> GlobalTimerTask<E, C> {
        self.task
    }

    /// The part that works off large batches.
    pub closed spec fn parallel(&self) -> HybridParallelTimerSystem<E> {
        self.parallel_system
    }

    pub closed spec fn threshold(&self) -> usize {
        self.parallel_threshold
    }

    /// Timers are neither lost nor counted twice, however batches are worked off.
    pub proof fn law_timers_are_accounted_for(&self)
        requires
            self.wf(),
        ensures
            self@.accounted(),
    {
        self.task.law_timers_are_accounted_for();
    }

    /// The timers are those in the wheel of the part that owns them.
    pub proof fn law_wheel_holds_the_timers(&self)
        requires
            self.wf(),
        ensures
            self.base()@ == self@,
            self.base().wheel()@ == self@.timers,
            self.base().wheel().spec_slot_count() == global::TASK_SLOT_COUNT,
            self.base().wheel().wf(),
            self.parallel().wf(),
    {
        self.task.law_wheel_holds_the_timers();
    }

    /// A task without timers.
    pub fn new(parallel_threshold: usize, now: u64) -> (task: Self)
        ensures
            task.wf(),
            task@ == (TaskState {
                timers: Map::<u64, TimerEntry<TimerEvent<E, C>>>::empty(),
                next_id: 1,
                processed: 0,
                cancelled: 0,
            }),
            task.base().wheel().spec_slot_duration() == global::TASK_SLOT_DURATION,
            task.base().wheel().spec_start_time() == now,
            task.base().wheel().spec_current_tick() == 0,
            task.threshold() == parallel_threshold,
            task.parallel().cores() >= 1,
            task.parallel().fresh_for(task.parallel().cores()),
    {
        HybridTimerTask {
            task: GlobalTimerTask::new(now),
            parallel_system: HybridParallelTimerSystem::new(),
            parallel_threshold,
        }
    }

    /// A task without timers and with the default threshold.
    pub fn new_default(now: u64) -> (task: Self)
        ensures
            task.wf(),
            task@ == (TaskState {
                timers: Map::<u64, TimerEntry<TimerEvent<E, C>>>::empty(),
                next_id: 1,
                processed: 0,
                cancelled: 0,
            }),
            task.base().wheel().spec_slot_duration() == global::TASK_SLOT_DURATION,
            task.base().wheel().spec_start_time() == now,
            task.base().wheel().spec_current_tick() == 0,
            task.threshold() == DEFAULT_PARALLEL_THRESHOLD,
            task.parallel().cores() >= 1,
            task.parallel().fresh_for(task.parallel().cores()),
    {
        Self::new(DEFAULT_PARALLEL_THRESHOLD, now)
    }

    /// The channels for events of large batches that found no slot.
    pub fn event_channels(&self) -> (dispatcher: &AsyncEventDispatcher<E>)
        ensures
            *dispatcher == self.parallel().fallback(),
    {
        self.parallel_system.get_async_dispatcher()
    }

    /// Takes the timers that are due at `now` out of the wheel, and works off a
    /// large batch of them in parallel.
    pub fn advance_timing_wheel_hybrid(&mut self, now: u64) -> (advance: HybridAdvance<E, C>)
        requires
            old(self).wf(),
        ensures
            final(self).wf(),
            final(self)@ == old(self)@.advanced(now),
            final(self).base().wheel().ring_moved(old(self).base().wheel(), now),
            final(self).threshold() == old(self).threshold(),
            exists|expired: Seq<TimerEntry<TimerEvent<E, C>>>|
                {
                    &&& #[trigger] wheel::enumerates(
                        expired,
                        wheel::due(old(self)@.timers, now),
                    )
                    &&& advanced_with(
                        old(self).parallel(),
                        old(self).threshold(),
                        expired,
                        final(self).parallel(),
                        advance,
                    )
                },
    {
        let expired_timers = self.task.advance_timing_wheel(now);
        let ghost expired = expired_timers@;
        let notifications = notifications_for(expired_timers.as_slice());
        let batch_size = expired_timers.len();
        let batch = if batch_size > 0 && batch_size >= self.parallel_threshold {
            Some(self.parallel_system.process_timer_batch(expired_timers))
        } else {
            None
        };
        assert(wheel::enumerates(expired, wheel::due(old(self)@.timers, now)));
        HybridAdvance { notifications, batch }
    }

    /// Closes a batch that took `duration` nanoseconds. Where its events went to
    /// channels, `sent` says how many of them the channels took.
    pub fn finish_batch(&mut self, result: ProcessingResult, sent: Option<usize>, duration: u64)
        -> (report: ParallelProcessingResult)
        requires
            old(self).wf(),
            old(self).parallel().spec_stats().total_batches_processed < u64::MAX,
        ensures
            final(self).wf(),
            final(self)@ == old(self)@,
            final(self).base() == old(self).base(),
            final(self).threshold() == old(self).threshold(),
            final(self).parallel().spec_stats() == system::with_batch(
                old(self).parallel().spec_stats(),
                result.strategy_used,
                result.processed_count,
                duration,
            ),
            final(self).parallel().dispatcher() == old(self).parallel().dispatcher(),
            final(self).parallel().fallback() == old(self).parallel().fallback(),
            report == system::report_for(result, sent, duration),
    {
        self.parallel_system.finish_batch(result, sent, duration)
    }

    /// Whether the times and the identifiers that a command needs can be
    /// represented.
    pub fn can_handle(&self, command: &TimerTaskCommand<E, C>, now: u64) -> (can: bool)
        requires
            self.wf(),
        ensures
            can == self@.can_handle(*command, now),
    {
        self.task.can_handle(command, now)
    }

    /// Carries out a command, and answers it.
    pub fn handle_command(&mut self, command: TimerTaskCommand<E, C>, now: u64) -> (response:
        TimerTaskResponse)
        requires
            old(self).wf(),
            old(self)@.can_handle(command, now),
        ensures
            final(self).wf(),
            final(self)@ == old(self)@.commanded(command, now),
            final(self).base().wheel().same_ring(old(self).base().wheel()),
            final(self).parallel() == old(self).parallel(),
            final(self).threshold() == old(self).threshold(),
            global::answered(old(self).base(), command, now, response),
    {
        self.task.handle_command(command, now)
    }

    /// Registers a timer, and answers with a handle to it.
    pub fn register_timer(&mut self, registration: TimerRegistration<E, C>, now: u64) -> (result:
        Result<TimerHandle, TimerError>)
        requires
            old(self).wf(),
            old(self)@.can_register(registration, now),
        ensures
            final(self).wf(),
            final(self)@ == old(self)@.registered(registration, now),
            final(self).base().wheel().same_ring(old(self).base().wheel()),
            final(self).parallel() == old(self).parallel(),
            final(self).threshold() == old(self).threshold(),
            result == Ok::<TimerHandle, TimerError>(
                TimerHandle { entry_id: old(self)@.next_id },
            ),
    {
        self.task.register_timer(registration, now)
    }

    /// Registers timers, and answers with handles to them.
    pub fn batch_register_timers(
        &mut self,
        batch_registration: BatchTimerRegistration<E, C>,
        now: u64,
    ) -> (result: BatchTimerResult<TimerHandle>)
        requires
            old(self).wf(),
            old(self)@.can_register_all(batch_registration.registrations@, now),
        ensures
            final(self).wf(),
            final(self)@ == old(self)@.batch_registered(batch_registration.registrations@, now),
            final(self).base().wheel().same_ring(old(self).base().wheel()),
            final(self).parallel() == old(self).parallel(),
            final(self).threshold() == old(self).threshold(),
            result.failures@.len() == 0,
            result.successes@ == Seq::new(
                batch_registration.registrations@.len(),
                |i: int| TimerHandle { entry_id: (old(self)@.next_id + i) as u64 },
            ),
    {
        self.task.batch_register_timers(batch_registration, now)
    }

    /// Cancels a timer, and says whether there was one.
    pub fn cancel_timer(&mut self, entry_id: u64) -> (result: Result<bool, TimerError>)
        requires
            old(self).wf(),
        ensures
            final(self).wf(),
            final(self)@ == old(self)@.cancelled_to(old(self)@.timers.remove(entry_id)),
            final(self).base().wheel().same_ring(old(self).base().wheel()),
            final(self).parallel() == old(self).parallel(),
            final(self).threshold() == old(self).threshold(),
            result == Ok::<bool, TimerError>(old(self)@.timers.contains_key(entry_id)),
    {
        Ok(self.task.cancel_timer(entry_id))
    }

    /// Cancels timers, and says which of the identifiers named none.
    pub fn batch_cancel_timers(&mut self, batch_cancellation: BatchTimerCancellation) -> (result:
        BatchTimerResult<bool>)
        requires
            old(self).wf(),
        ensures
            final(self).wf(),
            final(self)@ == old(self)@.cancelled_to(
                old(self)@.timers.remove_keys(batch_cancellation.entry_ids@.to_set()),
            ),
            final(self).base().wheel().same_ring(old(self).base().wheel()),
            final(self).parallel() == old(self).parallel(),
            final(self).threshold() == old(self).threshold(),
            result.failures@ == global::cancel_failures(
                old(self)@.timers,
                batch_cancellation.entry_ids@,
            ),
            result.successes@ == Seq::new(
                (batch_cancellation.entry_ids@.len() - result.failures@.len()) as nat,
                |i: int| true,
            ),
    {
        self.task.batch_cancel_timers(batch_cancellation)
    }

    /// Cancels the timers of a connection, and says how many there were.
    pub fn clear_connection_timers(&mut self, connection_id: ConnectionId) -> (count: usize)
        requires
            old(self).wf(),
        ensures
            final(self).wf(),
            final(self)@ == old(self)@.cancelled_to(
                global::without_connection(old(self)@.timers, connection_id),
            ),
            final(self).base().wheel().same_ring(old(self).base().wheel()),
            final(self).parallel() == old(self).parallel(),
            final(self).threshold() == old(self).threshold(),
            count == old(self)@.timers.dom().len() - final(self)@.timers.dom().len(),
    {
        self.task.clear_connection_timers(connection_id)
    }

    /// Figures on the task.
    pub fn get_stats(&self) -> (stats: TimerTaskStats)
        requires
            self.wf(),
        ensures
            stats.total_timers == self@.timers.dom().len(),
            stats.active_connections == global::owners(self@.timers).values().len(),
            stats.processed_timers == self@.processed,
            stats.cancelled_timers == self@.cancelled,
            stats.wheel_stats.total_slots == global::TASK_SLOT_COUNT,
            stats.wheel_stats.non_empty_slots == self.base().wheel().occupied().len(),
            stats.wheel_stats.total_timers == self@.timers.dom().len(),
    {
        self.task.get_stats()
    }

    /// How long to wait between advances, in nanoseconds.
    pub fn calculate_advance_interval(&self) -> (interval: u64)
        requires
            self.wf(),
        ensures
            interval == global::advance_interval(self@.timers.dom().len()),
    {
        self.task.calculate_advance_interval()
    }

    /// When to wake up next.
    pub fn get_next_wakeup_time(&mut self, now: u64) -> (wakeup: u64)
        requires
            old(self).wf(),
            now + global::IDLE_WAKEUP_DELAY <= u64::MAX,
        ensures
            final(self).wf(),
            final(self)@ == old(self)@,
            final(self).base().wheel().same_ring(old(self).base().wheel()),
            final(self).parallel() == old(self).parallel(),
            final(self).threshold() == old(self).threshold(),
            exists|next: Option<u64>| #[trigger]
                wheel::is_next_expiry(old(self)@.timers, next) && wakeup == global::wakeup_for(
                    next,
                    now,
                ),
    {
        let wakeup = self.task.get_next_wakeup_time(now);
        proof {
            let next = choose|next: Option<u64>| #[trigger]
                wheel::is_next_expiry(old(self).task@.timers, next) && wakeup
                    == global::wakeup_for(next, now);
            assert(wheel::is_next_expiry(old(self)@.timers, next));
        }
        wakeup
    }

    /// Figures on the parallel system.
    pub fn get_parallel_stats(&self) -> (stats: &ParallelProcessingStats)
        ensures
            *stats == self.parallel().spec_stats(),
    {
        self.parallel_system.get_stats()
    }
}

} // verus!
