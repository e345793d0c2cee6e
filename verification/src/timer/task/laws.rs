//! What the timing wheel and the timer tasks do, stated of their functions one by
//! one and of several calls in a row.

use vstd::prelude::*;

use crate::timer::event::traits::EventDataTrait;
use crate::timer::event::{ConnectionId, TimerEvent, TimerEventData};
use crate::timer::event::lockfree_ring::DispatcherState;
use crate::timer::hybrid_system::{HybridAdvance, HybridTimerTask, TimerNotification};
use crate::timer::parallel::async_dispatcher::AsyncEventDispatcher;
use crate::timer::parallel::laws;
use crate::timer::parallel::system::ProcessingResult;
use crate::timer::parallel::types::{ParallelProcessingResult, ParallelProcessingStats};
use crate::timer::task::commands::{
    TimerError, TimerTaskCommand, TimerTaskResponse, TimerTaskStats,
};
use crate::timer::task::global;
use crate::timer::task::global::GlobalTimerTask;
use crate::timer::task::index::ConnectionIndex;
use crate::timer::task::schedule::{AdvanceSchedule, LoopAction, LoopEvent};
use crate::timer::task::types::{
    BatchTimerCancellation, BatchTimerRegistration, BatchTimerResult, ClosureCallback,
    NoOpCallback, TimerCallback, TimerHandle, TimerRegistration,
};
use crate::timer::wheel;
use crate::timer::wheel::{TimerEntry, TimingWheel, TimingWheelStats};

verus! {

/// The ring of a wheel is as it was: as many slots of the same length, and the same
/// slot is the current one.
pub open spec fn ring_stays<T>(before: TimingWheel<T>, after: TimingWheel<T>) -> bool {
    &&& after.spec_slot_count() == before.spec_slot_count()
    &&& after.spec_slot_duration() == before.spec_slot_duration()
    &&& after.spec_start_time() == before.spec_start_time()
    &&& after.spec_current_tick() == before.spec_current_tick()
}

/// The ring of a wheel has the same slots and stands at the tick that `now` lies in, or
/// where it stood, if that is later.
pub open spec fn ring_moves<T>(before: TimingWheel<T>, after: TimingWheel<T>, now: u64) -> bool {
    let start = after.spec_start_time();
    let length = after.spec_slot_duration();
    let tick = after.spec_current_tick();
    &&& after.spec_slot_count() == before.spec_slot_count()
    &&& length == before.spec_slot_duration()
    &&& start == before.spec_start_time()
    &&& tick >= before.spec_current_tick()
    &&& tick == before.spec_current_tick() || start + tick * length <= now
    &&& now < start + (tick + 1) * length
}

/// The slot that a timer for the instant `t` is kept in.
pub open spec fn slot_at<T>(wheel: TimingWheel<T>, t: u64) -> int {
    let tick = if t < wheel.spec_start_time() {
        0
    } else {
        (t - wheel.spec_start_time()) / wheel.spec_slot_duration() as int
    };
    if tick < wheel.spec_current_tick() {
        wheel.spec_current_tick() as int % wheel.spec_slot_count() as int
    } else {
        tick % wheel.spec_slot_count() as int
    }
}

proof fn lemma_ring_moves<T>(before: TimingWheel<T>, after: TimingWheel<T>, now: u64)
    requires
        before.wf(),
        after.ring_moved(before, now),
    ensures
        ring_moves(before, after, now),
{
    before.law_slots_have_a_length();
    let start = before.spec_start_time();
    let length = before.spec_slot_duration() as int;
    let tick = after.spec_current_tick() as int;
    if now >= start {
        let x = now - start;
        let q = x / length;
        vstd::arithmetic::div_mod::lemma_fundamental_div_mod(x, length);
        vstd::arithmetic::div_mod::lemma_mod_bound(x, length);
        vstd::arithmetic::mul::lemma_mul_is_commutative(length, q);
        assert((q + 1) * length == q * length + length) by (nonlinear_arith);
        assert((q + 1) * length <= (tick + 1) * length) by (nonlinear_arith)
            requires
                q <= tick,
                length > 0,
        ;
    } else {
        assert((tick + 1) * length > 0) by (nonlinear_arith)
            requires
                tick >= 0,
                length > 0,
        ;
    }
}

proof fn lemma_occupied<T>(wheel: TimingWheel<T>)
    ensures
        wheel.occupied() == wheel@.dom().map(
            |id: u64| slot_at(wheel, wheel@[id].expiry_time),
        ),
{
    let mine = |id: u64| slot_at(wheel, wheel@[id].expiry_time);
    let theirs = |id: u64| wheel.slot_of(wheel@[id].expiry_time);
    assert(mine =~= theirs);
}

/// The failures of a batch of cancellations are the positions that cancel nothing.
proof fn lemma_cancel_failures<T>(timers: Map<u64, T>, ids: Seq<u64>)
    ensures
        ({
            let failures = global::cancel_failures(timers, ids);
            &&& failures.len() <= ids.len()
            &&& forall|k: int|
                0 <= k < failures.len() ==> (#[trigger] failures[k]).1 == TimerError::TimerNotFound
                    && failures[k].0 < ids.len()
            &&& ids.len() <= usize::MAX ==> forall|i: int|
                0 <= i < ids.len() ==> ((exists|k: int|
                    0 <= k < failures.len() && (#[trigger] failures[k]).0 == i)
                    <==> !(timers.contains_key(#[trigger] ids[i]) && !ids.take(i).contains(
                    ids[i],
                )))
        }),
    decreases ids.len(),
{
    if ids.len() > 0 && ids.len() <= usize::MAX {
        let last = ids.len() - 1;
        let front = ids.drop_last();
        lemma_cancel_failures(timers, front);
        let before = global::cancel_failures(timers, front);
        let failures = global::cancel_failures(timers, ids);
        assert forall|i: int| 0 <= i < ids.len() implies ((exists|k: int|
            0 <= k < failures.len() && (#[trigger] failures[k]).0 == i) <==> !(timers.contains_key(
            #[trigger] ids[i],
        ) && !ids.take(i).contains(ids[i]))) by {
            if i < last {
                assert(front[i] == ids[i]);
                assert(front.take(i) =~= ids.take(i));
                if exists|k: int| 0 <= k < before.len() && (#[trigger] before[k]).0 == i {
                    let k = choose|k: int| 0 <= k < before.len() && (#[trigger] before[k]).0 == i;
                    assert(failures[k] == before[k]);
                }
                if exists|k: int| 0 <= k < failures.len() && (#[trigger] failures[k]).0 == i {
                    let k = choose|k: int|
                        0 <= k < failures.len() && (#[trigger] failures[k]).0 == i;
                    assert(before[k] == failures[k]);
                }
            } else {
                if !global::cancels(timers, ids, last) {
                    assert(failures[failures.len() - 1].0 == last);
                } else {
                    assert forall|k: int| 0 <= k < failures.len() implies (
                    #[trigger] failures[k]).0 != last by {
                        assert(before[k] == failures[k]);
                    }
                }
            }
        }
    } else if ids.len() > 0 {
        lemma_cancel_failures(timers, ids.drop_last());
    }
}

/// A registration adds one timer, under the identifier that the handle names. It is
/// due from `now` on after its delay, neither sooner nor later, and it carries the
/// connection, the event and the callback of the registration. No other timer changes.
pub proof fn law_task_timer_is_due_after_its_delay<E: EventDataTrait, C>(
    task: &mut GlobalTimerTask<E, C>,
    registration: TimerRegistration<E, C>,
    now: u64,
    result: Result<TimerHandle, TimerError>,
    t: u64,
)
    requires
        now + registration.delay <= u64::MAX,
        old(task)@.next_id < u64::MAX,
        call_ensures(GlobalTimerTask::<E, C>::register_timer, (task, registration, now), result),
    ensures
        ring_stays(old(task).wheel(), final(task).wheel()),
        ({
            let id = old(task)@.next_id;
            let entry = final(task)@.timers[id];
            &&& result matches Ok(handle) && handle.entry_id == id
            &&& final(task)@.timers.contains_key(id)
            &&& entry.id == id
            &&& entry.expiry_time == now + registration.delay
            &&& entry.expiry_time <= t <==> t >= now + registration.delay
            &&& entry.event.id == id
            &&& entry.event.data.connection_id == registration.connection_id
            &&& entry.event.data.timeout_event == registration.timeout_event
            &&& entry.event.callback == registration.callback
            &&& final(task)@.timers.remove(id) == old(task)@.timers.remove(id)
            &&& final(task)@.next_id == id + 1
            &&& final(task)@.processed == old(task)@.processed
            &&& final(task)@.cancelled == old(task)@.cancelled
        }),
{
    let id = old(task)@.next_id;
    assert(final(task)@.timers.remove(id) =~= old(task)@.timers.remove(id));
}

/// Each timer of a batch is due after its own delay, carries what its own
/// registration says, and has the identifier that its own handle names; the
/// identifiers follow each other. No other timer changes, and none fails.
pub proof fn law_task_timers_of_a_batch_are_due_after_their_delays<E: EventDataTrait, C>(
    task: &mut GlobalTimerTask<E, C>,
    batch_registration: BatchTimerRegistration<E, C>,
    now: u64,
    result: BatchTimerResult<TimerHandle>,
    i: int,
)
    requires
        0 <= i < batch_registration.registrations@.len(),
        now + batch_registration.registrations@[i].delay <= u64::MAX,
        old(task)@.next_id + batch_registration.registrations@.len() <= u64::MAX,
        call_ensures(GlobalTimerTask::<E, C>::batch_register_timers, (task, batch_registration, now), result),
    ensures
        ring_stays(old(task).wheel(), final(task).wheel()),
        ({
            let registration = batch_registration.registrations@[i];
            let n = batch_registration.registrations@.len();
            let first = old(task)@.next_id;
            let id = (first + i) as u64;
            let entry = final(task)@.timers[id];
            &&& result.failures@.len() == 0
            &&& result.successes@.len() == n
            &&& result.successes@[i].entry_id == id
            &&& final(task)@.timers.contains_key(id)
            &&& entry.id == id
            &&& entry.expiry_time == now + registration.delay
            &&& entry.event.id == id
            &&& entry.event.data.connection_id == registration.connection_id
            &&& entry.event.data.timeout_event == registration.timeout_event
            &&& entry.event.callback == registration.callback
            &&& forall|other: u64|
                !(first <= other < first + n) ==> (#[trigger] final(task)@.timers.contains_key(
                    other,
                ) <==> old(task)@.timers.contains_key(other))
            &&& forall|other: u64|
                !(first <= other < first + n) && #[trigger] final(task)@.timers.contains_key(other)
                    ==> final(task)@.timers[other] == old(task)@.timers[other]
            &&& final(task)@.next_id == first + n
            &&& final(task)@.processed == old(task)@.processed
            &&& final(task)@.cancelled == old(task)@.cancelled
        }),
{
}

/// A cancellation takes out the timer that it names and no other, and says whether
/// there was one.
pub proof fn law_task_cancellation_takes_one_timer<E: EventDataTrait, C>(
    task: &mut GlobalTimerTask<E, C>,
    entry_id: u64,
    cancelled: bool,
)
    requires
        old(task).wf(),
        call_ensures(GlobalTimerTask::<E, C>::cancel_timer, (task, entry_id), cancelled),
    ensures
        ring_stays(old(task).wheel(), final(task).wheel()),
        cancelled == old(task)@.timers.contains_key(entry_id),
        !final(task)@.timers.contains_key(entry_id),
        forall|id: u64|
            id != entry_id ==> (#[trigger] final(task)@.timers.contains_key(id)
                <==> old(task)@.timers.contains_key(id)),
        forall|id: u64| #[trigger]
            final(task)@.timers.contains_key(id) ==> final(task)@.timers[id]
                == old(task)@.timers[id],
        final(task)@.next_id == old(task)@.next_id,
        final(task)@.processed == old(task)@.processed,
        final(task)@.cancelled == old(task)@.cancelled + (if old(task)@.timers.contains_key(
            entry_id,
        ) {
            1int
        } else {
            0int
        }),
{
    old(task).law_timers_are_accounted_for();
    assert(old(task)@.timers.remove(entry_id).dom() =~= old(task)@.timers.dom().remove(entry_id));
}

/// A batch of cancellations takes out the timers that it names and no others. An
/// entry fails exactly where its timer was not there or an earlier entry has named
/// it, and there are as many successes as the other entries.
pub proof fn law_task_batch_cancellation_takes_the_named_timers<E: EventDataTrait, C>(
    task: &mut GlobalTimerTask<E, C>,
    batch_cancellation: BatchTimerCancellation,
    result: BatchTimerResult<bool>,
    i: int,
)
    requires
        old(task).wf(),
        0 <= i < batch_cancellation.entry_ids@.len(),
        call_ensures(GlobalTimerTask::<E, C>::batch_cancel_timers, (task, batch_cancellation), result),
    ensures
        ring_stays(old(task).wheel(), final(task).wheel()),
        ({
            let ids = batch_cancellation.entry_ids@;
            let was = old(task)@.timers;
            let post = final(task)@.timers;
            &&& forall|id: u64| #[trigger]
                post.contains_key(id) <==> was.contains_key(id) && !ids.contains(id)
            &&& forall|id: u64| #[trigger] post.contains_key(id) ==> post[id] == was[id]
            &&& (exists|k: int|
                0 <= k < result.failures@.len() && (#[trigger] result.failures@[k]).0 == i)
                <==> !was.contains_key(ids[i]) || exists|j: int| 0 <= j < i && #[trigger] ids[j]
                == ids[i]
            &&& forall|k: int|
                0 <= k < result.failures@.len() ==> (#[trigger] result.failures@[k]).1
                    == TimerError::TimerNotFound
            &&& result.successes@.len() + result.failures@.len() == ids.len()
            &&& forall|k: int|
                0 <= k < result.successes@.len() ==> #[trigger] result.successes@[k]
            &&& final(task)@.next_id == old(task)@.next_id
            &&& final(task)@.processed == old(task)@.processed
            &&& final(task)@.cancelled == old(task)@.cancelled + was.dom().len() - post.dom().len()
        }),
{
    let ids = batch_cancellation.entry_ids@;
    let was = old(task)@.timers;
    let post = final(task)@.timers;
    assert(batch_cancellation.entry_ids.len() <= usize::MAX);
    lemma_cancel_failures(was, ids);
    assert(post =~= was.remove_keys(ids.to_set()));
    if exists|j: int| 0 <= j < i && #[trigger] ids[j] == ids[i] {
        let j = choose|j: int| 0 <= j < i && #[trigger] ids[j] == ids[i];
        assert(ids.take(i)[j] == ids[i]);
        assert(ids.take(i).contains(ids[i]));
    } else {
        assert(!ids.take(i).contains(ids[i]));
    }
}

/// Clearing a connection takes out its timers and no others, and says how many
/// there were.
pub proof fn law_task_clearing_takes_the_timers_of_a_connection<E: EventDataTrait, C>(
    task: &mut GlobalTimerTask<E, C>,
    connection_id: ConnectionId,
    count: usize,
)
    requires
        call_ensures(GlobalTimerTask::<E, C>::clear_connection_timers, (task, connection_id), count),
    ensures
        ring_stays(old(task).wheel(), final(task).wheel()),
        ({
            let was = old(task)@.timers;
            let post = final(task)@.timers;
            &&& forall|id: u64| #[trigger]
                post.contains_key(id) <==> was.contains_key(id) && was[id].event.data.connection_id
                    != connection_id
            &&& forall|id: u64| #[trigger] post.contains_key(id) ==> post[id] == was[id]
            &&& count == was.dom().len() - post.dom().len()
            &&& final(task)@.next_id == old(task)@.next_id
            &&& final(task)@.processed == old(task)@.processed
            &&& final(task)@.cancelled == old(task)@.cancelled + count
        }),
{
    let was = old(task)@.timers;
    assert forall|id: u64| #[trigger] final(task)@.timers.contains_key(id) <==> was.contains_key(id)
        && was[id].event.data.connection_id != connection_id by {
        global::law_clear_takes_one_connection(was, connection_id, id);
    }
}

/// The next wake-up is when the first timer is due, but five milliseconds from now
/// at the soonest, and a second from now where there is no timer. Nothing changes.
pub proof fn law_task_wakes_up_for_the_first_timer<E: EventDataTrait, C>(
    task: &mut GlobalTimerTask<E, C>,
    now: u64,
    wakeup: u64,
)
    requires
        now + 1_000_000_000 <= u64::MAX,
        call_ensures(GlobalTimerTask::<E, C>::get_next_wakeup_time, (task, now), wakeup),
    ensures
        ring_stays(old(task).wheel(), final(task).wheel()),
        final(task)@ == old(task)@,
        wakeup >= now + 5_000_000,
        (forall|id: u64| !#[trigger] old(task)@.timers.contains_key(id)) ==> wakeup == now
            + 1_000_000_000,
        forall|id: u64| #[trigger]
            old(task)@.timers.contains_key(id) ==> wakeup <= now + 5_000_000 || wakeup
                <= old(task)@.timers[id].expiry_time,
        wakeup == now + 5_000_000 || (exists|id: u64| #[trigger]
            old(task)@.timers.contains_key(id) && old(task)@.timers[id].expiry_time == wakeup) || (
        forall|id: u64| !#[trigger] old(task)@.timers.contains_key(id)),
        wakeup == now + 5_000_000 ==> exists|id: u64| #[trigger]
            old(task)@.timers.contains_key(id) && old(task)@.timers[id].expiry_time <= now
                + 5_000_000,
{
}

/// The more timers there are, the more often the wheel is advanced.
pub proof fn law_task_advances_more_often_with_more_timers<E: EventDataTrait, C>(
    task: GlobalTimerTask<E, C>,
    interval: u64,
)
    requires
        call_ensures(GlobalTimerTask::<E, C>::calculate_advance_interval, (&task,), interval),
    ensures
        ({
            let n = task@.timers.dom().len();
            &&& n < 100 ==> interval == 100_000_000
            &&& 100 <= n < 1000 ==> interval == 50_000_000
            &&& 1000 <= n < 5000 ==> interval == 20_000_000
            &&& 5000 <= n ==> interval == 10_000_000
        }),
{
}

/// A command can be carried out where the instants and the identifiers of the timers
/// that it asks for can be represented.
pub proof fn law_task_can_handle_what_can_be_represented<E: EventDataTrait, C>(
    task: GlobalTimerTask<E, C>,
    command: TimerTaskCommand<E, C>,
    now: u64,
    can: bool,
)
    requires
        call_ensures(GlobalTimerTask::<E, C>::can_handle, (&task, &command, now), can),
    ensures
        match command {
            TimerTaskCommand::RegisterTimer { registration } => can <==> now + registration.delay
                <= u64::MAX && task@.next_id < u64::MAX,
            TimerTaskCommand::BatchRegisterTimers { batch_registration } => can <==> (forall|
                i: int,
            |
                0 <= i < batch_registration.registrations@.len() ==> now + (
                #[trigger] batch_registration.registrations@[i]).delay <= u64::MAX) && task@.next_id
                + batch_registration.registrations@.len() <= u64::MAX,
            _ => can,
        },
{
}

/// The figures count the timers that are there, the connections that have one, and
/// the timers that have fired and that were cancelled.
pub proof fn law_task_figures_count_timers_and_connections<E: EventDataTrait, C>(
    task: GlobalTimerTask<E, C>,
    stats: TimerTaskStats,
    connections: Set<ConnectionId>,
)
    requires
        task.wf(),
        forall|c: ConnectionId| #[trigger]
            connections.contains(c) <==> exists|id: u64| #[trigger]
                task@.timers.contains_key(id) && task@.timers[id].event.data.connection_id == c,
        call_ensures(GlobalTimerTask::<E, C>::get_stats, (&task,), stats),
    ensures
        stats.wheel_stats.non_empty_slots == task@.timers.dom().map(
            |id: u64| slot_at(task.wheel(), task@.timers[id].expiry_time),
        ).len(),
        stats.total_timers == task@.timers.dom().len(),
        stats.active_connections == connections.len(),
        stats.processed_timers == task@.processed,
        stats.cancelled_timers == task@.cancelled,
        stats.wheel_stats.total_slots == 512,
        stats.wheel_stats.total_timers == task@.timers.dom().len(),
{
    task.law_wheel_holds_the_timers();
    lemma_occupied(task.wheel());
    let owned = global::owners(task@.timers);
    assert(owned.values() =~= connections) by {
        assert forall|c: ConnectionId| owned.values().contains(c) <==> connections.contains(c) by {
            if connections.contains(c) {
                let id = choose|id: u64| #[trigger]
                    task@.timers.contains_key(id) && task@.timers[id].event.data.connection_id == c;
                assert(owned.contains_key(id) && owned[id] == c);
            }
            if owned.values().contains(c) {
                let id = choose|id: u64| owned.contains_key(id) && owned[id] == c;
                assert(task@.timers.contains_key(id));
            }
        }
    }
}

/// A command does what the function for it does. A timer that is registered by
/// command is due after its delay, a cancellation takes the timer that it names, and
/// clearing takes the timers of the connection; each is answered with what was done.
pub proof fn law_task_commands_do_what_they_say<E: EventDataTrait, C>(
    task: &mut GlobalTimerTask<E, C>,
    command: TimerTaskCommand<E, C>,
    now: u64,
    response: TimerTaskResponse,
)
    requires
        old(task).wf(),
        old(task)@.can_handle(command, now),
        call_ensures(GlobalTimerTask::<E, C>::handle_command, (task, command, now), response),
    ensures
        ring_stays(old(task).wheel(), final(task).wheel()),
        ({
            let was = old(task)@.timers;
            let post = final(task)@.timers;
            let first = old(task)@.next_id;
            match command {
                TimerTaskCommand::RegisterTimer { registration } => {
                    &&& response == TimerTaskResponse::Registered(
                        Ok(TimerHandle { entry_id: first }),
                    )
                    &&& post.contains_key(first)
                    &&& post[first].expiry_time == now + registration.delay
                    &&& post[first].event.data.connection_id == registration.connection_id
                    &&& post[first].event.data.timeout_event == registration.timeout_event
                    &&& post[first].event.callback == registration.callback
                    &&& post.remove(first) == was.remove(first)
                },
                TimerTaskCommand::BatchRegisterTimers { batch_registration } => {
                    let all = batch_registration.registrations@;
                    &&& response matches TimerTaskResponse::BatchRegistered(result)
                        && result.successes@.len() == all.len() && result.failures@.len() == 0
                        && forall|i: int|
                        0 <= i < all.len() ==> (#[trigger] result.successes@[i]).entry_id == first
                            + i
                    &&& forall|i: int|
                        0 <= i < all.len() ==> {
                            let registration = #[trigger] all[i];
                            let entry = post[(first + i) as u64];
                            &&& post.contains_key((first + i) as u64)
                            &&& entry.expiry_time == now + registration.delay
                            &&& entry.event.data.connection_id == registration.connection_id
                            &&& entry.event.data.timeout_event == registration.timeout_event
                            &&& entry.event.callback == registration.callback
                        }
                    &&& forall|id: u64|
                        !(first <= id < first + all.len()) ==> (#[trigger] post.contains_key(id)
                            <==> was.contains_key(id)) && (was.contains_key(id) ==> post[id]
                            == was[id])
                },
                TimerTaskCommand::CancelTimer { entry_id } => {
                    &&& response == TimerTaskResponse::Cancelled(was.contains_key(entry_id))
                    &&& forall|id: u64| #[trigger]
                        post.contains_key(id) <==> was.contains_key(id) && id != entry_id
                    &&& forall|id: u64| #[trigger] post.contains_key(id) ==> post[id] == was[id]
                },
                TimerTaskCommand::BatchCancelTimers { batch_cancellation } => {
                    &&& response matches TimerTaskResponse::BatchCancelled(result)
                        && result.successes@.len() + result.failures@.len()
                        == batch_cancellation.entry_ids@.len()
                    &&& forall|id: u64| #[trigger]
                        post.contains_key(id) <==> was.contains_key(id)
                            && !batch_cancellation.entry_ids@.contains(id)
                    &&& forall|id: u64| #[trigger] post.contains_key(id) ==> post[id] == was[id]
                },
                TimerTaskCommand::ClearConnectionTimers { connection_id } => {
                    &&& response matches TimerTaskResponse::Cleared(count) && count
                        == was.dom().len() - post.dom().len()
                    &&& forall|id: u64| #[trigger]
                        post.contains_key(id) <==> was.contains_key(id)
                            && was[id].event.data.connection_id != connection_id
                    &&& forall|id: u64| #[trigger] post.contains_key(id) ==> post[id] == was[id]
                },
                TimerTaskCommand::GetStats => final(task)@ == old(task)@ && (
                response matches TimerTaskResponse::Stats(stats) && stats.total_timers
                    == was.dom().len() && stats.processed_timers == old(task)@.processed
                    && stats.cancelled_timers == old(task)@.cancelled),
                TimerTaskCommand::Shutdown => final(task)@ == old(task)@ && response
                    is ShuttingDown,
            }
        }),
{
    let was = old(task)@.timers;
    let post = final(task)@.timers;
    let first = old(task)@.next_id;
    old(task).law_wheel_holds_the_timers();
    match command {
        TimerTaskCommand::RegisterTimer { registration } => {
            assert(post.remove(first) =~= was.remove(first));
        },
        TimerTaskCommand::BatchRegisterTimers { batch_registration } => {
            let all = batch_registration.registrations@;
            assert forall|i: int| 0 <= i < all.len() implies {
                let registration = #[trigger] all[i];
                let entry = post[(first + i) as u64];
                &&& post.contains_key((first + i) as u64)
                &&& entry.expiry_time == now + registration.delay
                &&& entry.event.data.connection_id == registration.connection_id
                &&& entry.event.data.timeout_event == registration.timeout_event
                &&& entry.event.callback == registration.callback
            } by {
                assert(global::batch_for(all, first)[i].0 == all[i].delay);
            }
        },
        TimerTaskCommand::BatchCancelTimers { batch_cancellation } => {
            lemma_cancel_failures(was, batch_cancellation.entry_ids@);
        },
        TimerTaskCommand::ClearConnectionTimers { connection_id } => {
            assert forall|id: u64| #[trigger] post.contains_key(id) <==> was.contains_key(id)
                && was[id].event.data.connection_id != connection_id by {
                global::law_clear_takes_one_connection(was, connection_id, id);
            }
        },
        _ => {},
    }
}

/// A registration adds one timer, under the identifier that the handle names. It is
/// due from `now` on after its delay, neither sooner nor later, and it carries the
/// connection, the event and the callback of the registration. No other timer changes.
pub proof fn law_hybrid_timer_is_due_after_its_delay<E: EventDataTrait, C: Clone + Sync>(
    task: &mut HybridTimerTask<E, C>,
    registration: TimerRegistration<E, C>,
    now: u64,
    result: Result<TimerHandle, TimerError>,
    t: u64,
)
    requires
        now + registration.delay <= u64::MAX,
        old(task)@.next_id < u64::MAX,
        call_ensures(HybridTimerTask::<E, C>::register_timer, (task, registration, now), result),
    ensures
        ring_stays(old(task).base().wheel(), final(task).base().wheel()),
        final(task).threshold() == old(task).threshold(),
        final(task).parallel() == old(task).parallel(),
        ({
            let id = old(task)@.next_id;
            let entry = final(task)@.timers[id];
            &&& result matches Ok(handle) && handle.entry_id == id
            &&& final(task)@.timers.contains_key(id)
            &&& entry.id == id
            &&& entry.expiry_time == now + registration.delay
            &&& entry.expiry_time <= t <==> t >= now + registration.delay
            &&& entry.event.id == id
            &&& entry.event.data.connection_id == registration.connection_id
            &&& entry.event.data.timeout_event == registration.timeout_event
            &&& entry.event.callback == registration.callback
            &&& final(task)@.timers.remove(id) == old(task)@.timers.remove(id)
            &&& final(task)@.next_id == id + 1
            &&& final(task)@.processed == old(task)@.processed
            &&& final(task)@.cancelled == old(task)@.cancelled
        }),
{
    let id = old(task)@.next_id;
    assert(final(task)@.timers.remove(id) =~= old(task)@.timers.remove(id));
}

/// Each timer of a batch is due after its own delay, carries what its own
/// registration says, and has the identifier that its own handle names; the
/// identifiers follow each other. No other timer changes, and none fails.
pub proof fn law_hybrid_timers_of_a_batch_are_due_after_their_delays<E: EventDataTrait, C: Clone + Sync>(
    task: &mut HybridTimerTask<E, C>,
    batch_registration: BatchTimerRegistration<E, C>,
    now: u64,
    result: BatchTimerResult<TimerHandle>,
    i: int,
)
    requires
        0 <= i < batch_registration.registrations@.len(),
        now + batch_registration.registrations@[i].delay <= u64::MAX,
        old(task)@.next_id + batch_registration.registrations@.len() <= u64::MAX,
        call_ensures(HybridTimerTask::<E, C>::batch_register_timers, (task, batch_registration, now), result),
    ensures
        ring_stays(old(task).base().wheel(), final(task).base().wheel()),
        final(task).threshold() == old(task).threshold(),
        final(task).parallel() == old(task).parallel(),
        ({
            let registration = batch_registration.registrations@[i];
            let n = batch_registration.registrations@.len();
            let first = old(task)@.next_id;
            let id = (first + i) as u64;
            let entry = final(task)@.timers[id];
            &&& result.failures@.len() == 0
            &&& result.successes@.len() == n
            &&& result.successes@[i].entry_id == id
            &&& final(task)@.timers.contains_key(id)
            &&& entry.id == id
            &&& entry.expiry_time == now + registration.delay
            &&& entry.event.id == id
            &&& entry.event.data.connection_id == registration.connection_id
            &&& entry.event.data.timeout_event == registration.timeout_event
            &&& entry.event.callback == registration.callback
            &&& forall|other: u64|
                !(first <= other < first + n) ==> (#[trigger] final(task)@.timers.contains_key(
                    other,
                ) <==> old(task)@.timers.contains_key(other))
            &&& forall|other: u64|
                !(first <= other < first + n) && #[trigger] final(task)@.timers.contains_key(other)
                    ==> final(task)@.timers[other] == old(task)@.timers[other]
            &&& final(task)@.next_id == first + n
            &&& final(task)@.processed == old(task)@.processed
            &&& final(task)@.cancelled == old(task)@.cancelled
        }),
{
}

/// A cancellation takes out the timer that it names and no other, and says whether
/// there was one.
pub proof fn law_hybrid_cancellation_takes_one_timer<E: EventDataTrait, C: Clone + Sync>(
    task: &mut HybridTimerTask<E, C>,
    entry_id: u64,
    cancelled: Result<bool, TimerError>,
)
    requires
        old(task).wf(),
        call_ensures(HybridTimerTask::<E, C>::cancel_timer, (task, entry_id), cancelled),
    ensures
        ring_stays(old(task).base().wheel(), final(task).base().wheel()),
        final(task).threshold() == old(task).threshold(),
        final(task).parallel() == old(task).parallel(),
        cancelled == Ok::<bool, TimerError>(old(task)@.timers.contains_key(entry_id)),
        !final(task)@.timers.contains_key(entry_id),
        forall|id: u64|
            id != entry_id ==> (#[trigger] final(task)@.timers.contains_key(id)
                <==> old(task)@.timers.contains_key(id)),
        forall|id: u64| #[trigger]
            final(task)@.timers.contains_key(id) ==> final(task)@.timers[id]
                == old(task)@.timers[id],
        final(task)@.next_id == old(task)@.next_id,
        final(task)@.processed == old(task)@.processed,
        final(task)@.cancelled == old(task)@.cancelled + (if old(task)@.timers.contains_key(
            entry_id,
        ) {
            1int
        } else {
            0int
        }),
{
    old(task).law_timers_are_accounted_for();
    assert(old(task)@.timers.remove(entry_id).dom() =~= old(task)@.timers.dom().remove(entry_id));
}

/// A batch of cancellations takes out the timers that it names and no others. An
/// entry fails exactly where its timer was not there or an earlier entry has named
/// it, and there are as many successes as the other entries.
pub proof fn law_hybrid_batch_cancellation_takes_the_named_timers<E: EventDataTrait, C: Clone + Sync>(
    task: &mut HybridTimerTask<E, C>,
    batch_cancellation: BatchTimerCancellation,
    result: BatchTimerResult<bool>,
    i: int,
)
    requires
        old(task).wf(),
        0 <= i < batch_cancellation.entry_ids@.len(),
        call_ensures(HybridTimerTask::<E, C>::batch_cancel_timers, (task, batch_cancellation), result),
    ensures
        ring_stays(old(task).base().wheel(), final(task).base().wheel()),
        final(task).threshold() == old(task).threshold(),
        final(task).parallel() == old(task).parallel(),
        ({
            let ids = batch_cancellation.entry_ids@;
            let was = old(task)@.timers;
            let post = final(task)@.timers;
            &&& forall|id: u64| #[trigger]
                post.contains_key(id) <==> was.contains_key(id) && !ids.contains(id)
            &&& forall|id: u64| #[trigger] post.contains_key(id) ==> post[id] == was[id]
            &&& (exists|k: int|
                0 <= k < result.failures@.len() && (#[trigger] result.failures@[k]).0 == i)
                <==> !was.contains_key(ids[i]) || exists|j: int| 0 <= j < i && #[trigger] ids[j]
                == ids[i]
            &&& forall|k: int|
                0 <= k < result.failures@.len() ==> (#[trigger] result.failures@[k]).1
                    == TimerError::TimerNotFound
            &&& result.successes@.len() + result.failures@.len() == ids.len()
            &&& forall|k: int|
                0 <= k < result.successes@.len() ==> #[trigger] result.successes@[k]
            &&& final(task)@.next_id == old(task)@.next_id
            &&& final(task)@.processed == old(task)@.processed
            &&& final(task)@.cancelled == old(task)@.cancelled + was.dom().len() - post.dom().len()
        }),
{
    let ids = batch_cancellation.entry_ids@;
    let was = old(task)@.timers;
    let post = final(task)@.timers;
    assert(batch_cancellation.entry_ids.len() <= usize::MAX);
    lemma_cancel_failures(was, ids);
    assert(post =~= was.remove_keys(ids.to_set()));
    if exists|j: int| 0 <= j < i && #[trigger] ids[j] == ids[i] {
        let j = choose|j: int| 0 <= j < i && #[trigger] ids[j] == ids[i];
        assert(ids.take(i)[j] == ids[i]);
        assert(ids.take(i).contains(ids[i]));
    } else {
        assert(!ids.take(i).contains(ids[i]));
    }
}

/// Clearing a connection takes out its timers and no others, and says how many
/// there were.
pub proof fn law_hybrid_clearing_takes_the_timers_of_a_connection<E: EventDataTrait, C: Clone + Sync>(
    task: &mut HybridTimerTask<E, C>,
    connection_id: ConnectionId,
    count: usize,
)
    requires
        call_ensures(HybridTimerTask::<E, C>::clear_connection_timers, (task, connection_id), count),
    ensures
        ring_stays(old(task).base().wheel(), final(task).base().wheel()),
        final(task).threshold() == old(task).threshold(),
        final(task).parallel() == old(task).parallel(),
        ({
            let was = old(task)@.timers;
            let post = final(task)@.timers;
            &&& forall|id: u64| #[trigger]
                post.contains_key(id) <==> was.contains_key(id) && was[id].event.data.connection_id
                    != connection_id
            &&& forall|id: u64| #[trigger] post.contains_key(id) ==> post[id] == was[id]
            &&& count == was.dom().len() - post.dom().len()
            &&& final(task)@.next_id == old(task)@.next_id
            &&& final(task)@.processed == old(task)@.processed
            &&& final(task)@.cancelled == old(task)@.cancelled + count
        }),
{
    let was = old(task)@.timers;
    assert forall|id: u64| #[trigger] final(task)@.timers.contains_key(id) <==> was.contains_key(id)
        && was[id].event.data.connection_id != connection_id by {
        global::law_clear_takes_one_connection(was, connection_id, id);
    }
}

/// The next wake-up is when the first timer is due, but five milliseconds from now
/// at the soonest, and a second from now where there is no timer. Nothing changes.
pub proof fn law_hybrid_wakes_up_for_the_first_timer<E: EventDataTrait, C: Clone + Sync>(
    task: &mut HybridTimerTask<E, C>,
    now: u64,
    wakeup: u64,
)
    requires
        now + 1_000_000_000 <= u64::MAX,
        call_ensures(HybridTimerTask::<E, C>::get_next_wakeup_time, (task, now), wakeup),
    ensures
        ring_stays(old(task).base().wheel(), final(task).base().wheel()),
        final(task).threshold() == old(task).threshold(),
        final(task).parallel() == old(task).parallel(),
        final(task)@ == old(task)@,
        wakeup >= now + 5_000_000,
        (forall|id: u64| !#[trigger] old(task)@.timers.contains_key(id)) ==> wakeup == now
            + 1_000_000_000,
        forall|id: u64| #[trigger]
            old(task)@.timers.contains_key(id) ==> wakeup <= now + 5_000_000 || wakeup
                <= old(task)@.timers[id].expiry_time,
        wakeup == now + 5_000_000 || (exists|id: u64| #[trigger]
            old(task)@.timers.contains_key(id) && old(task)@.timers[id].expiry_time == wakeup) || (
        forall|id: u64| !#[trigger] old(task)@.timers.contains_key(id)),
        wakeup == now + 5_000_000 ==> exists|id: u64| #[trigger]
            old(task)@.timers.contains_key(id) && old(task)@.timers[id].expiry_time <= now
                + 5_000_000,
{
}

/// The more timers there are, the more often the wheel is advanced.
pub proof fn law_hybrid_advances_more_often_with_more_timers<E: EventDataTrait, C: Clone + Sync>(
    task: HybridTimerTask<E, C>,
    interval: u64,
)
    requires
        call_ensures(HybridTimerTask::<E, C>::calculate_advance_interval, (&task,), interval),
    ensures
        ({
            let n = task@.timers.dom().len();
            &&& n < 100 ==> interval == 100_000_000
            &&& 100 <= n < 1000 ==> interval == 50_000_000
            &&& 1000 <= n < 5000 ==> interval == 20_000_000
            &&& 5000 <= n ==> interval == 10_000_000
        }),
{
}

/// A command can be carried out where the instants and the identifiers of the timers
/// that it asks for can be represented.
pub proof fn law_hybrid_can_handle_what_can_be_represented<E: EventDataTrait, C: Clone + Sync>(
    task: HybridTimerTask<E, C>,
    command: TimerTaskCommand<E, C>,
    now: u64,
    can: bool,
)
    requires
        call_ensures(HybridTimerTask::<E, C>::can_handle, (&task, &command, now), can),
    ensures
        match command {
            TimerTaskCommand::RegisterTimer { registration } => can <==> now + registration.delay
                <= u64::MAX && task@.next_id < u64::MAX,
            TimerTaskCommand::BatchRegisterTimers { batch_registration } => can <==> (forall|
                i: int,
            |
                0 <= i < batch_registration.registrations@.len() ==> now + (
                #[trigger] batch_registration.registrations@[i]).delay <= u64::MAX) && task@.next_id
                + batch_registration.registrations@.len() <= u64::MAX,
            _ => can,
        },
{
}

/// The figures count the timers that are there, the connections that have one, and
/// the timers that have fired and that were cancelled.
pub proof fn law_hybrid_figures_count_timers_and_connections<E: EventDataTrait, C: Clone + Sync>(
    task: HybridTimerTask<E, C>,
    stats: TimerTaskStats,
    connections: Set<ConnectionId>,
)
    requires
        task.wf(),
        forall|c: ConnectionId| #[trigger]
            connections.contains(c) <==> exists|id: u64| #[trigger]
                task@.timers.contains_key(id) && task@.timers[id].event.data.connection_id == c,
        call_ensures(HybridTimerTask::<E, C>::get_stats, (&task,), stats),
    ensures
        stats.wheel_stats.non_empty_slots == task@.timers.dom().map(
            |id: u64| slot_at(task.base().wheel(), task@.timers[id].expiry_time),
        ).len(),
        stats.total_timers == task@.timers.dom().len(),
        stats.active_connections == connections.len(),
        stats.processed_timers == task@.processed,
        stats.cancelled_timers == task@.cancelled,
        stats.wheel_stats.total_slots == 512,
        stats.wheel_stats.total_timers == task@.timers.dom().len(),
{
    task.law_wheel_holds_the_timers();
    lemma_occupied(task.base().wheel());
    let owned = global::owners(task@.timers);
    assert(owned.values() =~= connections) by {
        assert forall|c: ConnectionId| owned.values().contains(c) <==> connections.contains(c) by {
            if connections.contains(c) {
                let id = choose|id: u64| #[trigger]
                    task@.timers.contains_key(id) && task@.timers[id].event.data.connection_id == c;
                assert(owned.contains_key(id) && owned[id] == c);
            }
            if owned.values().contains(c) {
                let id = choose|id: u64| owned.contains_key(id) && owned[id] == c;
                assert(task@.timers.contains_key(id));
            }
        }
    }
}

/// A command does what the function for it does. A timer that is registered by
/// command is due after its delay, a cancellation takes the timer that it names, and
/// clearing takes the timers of the connection; each is answered with what was done.
pub proof fn law_hybrid_commands_do_what_they_say<E: EventDataTrait, C: Clone + Sync>(
    task: &mut HybridTimerTask<E, C>,
    command: TimerTaskCommand<E, C>,
    now: u64,
    response: TimerTaskResponse,
)
    requires
        old(task).wf(),
        old(task)@.can_handle(command, now),
        call_ensures(HybridTimerTask::<E, C>::handle_command, (task, command, now), response),
    ensures
        ring_stays(old(task).base().wheel(), final(task).base().wheel()),
        final(task).threshold() == old(task).threshold(),
        final(task).parallel() == old(task).parallel(),
        ({
            let was = old(task)@.timers;
            let post = final(task)@.timers;
            let first = old(task)@.next_id;
            match command {
                TimerTaskCommand::RegisterTimer { registration } => {
                    &&& response == TimerTaskResponse::Registered(
                        Ok(TimerHandle { entry_id: first }),
                    )
                    &&& post.contains_key(first)
                    &&& post[first].expiry_time == now + registration.delay
                    &&& post[first].event.data.connection_id == registration.connection_id
                    &&& post[first].event.data.timeout_event == registration.timeout_event
                    &&& post[first].event.callback == registration.callback
                    &&& post.remove(first) == was.remove(first)
                },
                TimerTaskCommand::BatchRegisterTimers { batch_registration } => {
                    let all = batch_registration.registrations@;
                    &&& response matches TimerTaskResponse::BatchRegistered(result)
                        && result.successes@.len() == all.len() && result.failures@.len() == 0
                        && forall|i: int|
                        0 <= i < all.len() ==> (#[trigger] result.successes@[i]).entry_id == first
                            + i
                    &&& forall|i: int|
                        0 <= i < all.len() ==> {
                            let registration = #[trigger] all[i];
                            let entry = post[(first + i) as u64];
                            &&& post.contains_key((first + i) as u64)
                            &&& entry.expiry_time == now + registration.delay
                            &&& entry.event.data.connection_id == registration.connection_id
                            &&& entry.event.data.timeout_event == registration.timeout_event
                            &&& entry.event.callback == registration.callback
                        }
                    &&& forall|id: u64|
                        !(first <= id < first + all.len()) ==> (#[trigger] post.contains_key(id)
                            <==> was.contains_key(id)) && (was.contains_key(id) ==> post[id]
                            == was[id])
                },
                TimerTaskCommand::CancelTimer { entry_id } => {
                    &&& response == TimerTaskResponse::Cancelled(was.contains_key(entry_id))
                    &&& forall|id: u64| #[trigger]
                        post.contains_key(id) <==> was.contains_key(id) && id != entry_id
                    &&& forall|id: u64| #[trigger] post.contains_key(id) ==> post[id] == was[id]
                },
                TimerTaskCommand::BatchCancelTimers { batch_cancellation } => {
                    &&& response matches TimerTaskResponse::BatchCancelled(result)
                        && result.successes@.len() + result.failures@.len()
                        == batch_cancellation.entry_ids@.len()
                    &&& forall|id: u64| #[trigger]
                        post.contains_key(id) <==> was.contains_key(id)
                            && !batch_cancellation.entry_ids@.contains(id)
                    &&& forall|id: u64| #[trigger] post.contains_key(id) ==> post[id] == was[id]
                },
                TimerTaskCommand::ClearConnectionTimers { connection_id } => {
                    &&& response matches TimerTaskResponse::Cleared(count) && count
                        == was.dom().len() - post.dom().len()
                    &&& forall|id: u64| #[trigger]
                        post.contains_key(id) <==> was.contains_key(id)
                            && was[id].event.data.connection_id != connection_id
                    &&& forall|id: u64| #[trigger] post.contains_key(id) ==> post[id] == was[id]
                },
                TimerTaskCommand::GetStats => final(task)@ == old(task)@ && (
                response matches TimerTaskResponse::Stats(stats) && stats.total_timers
                    == was.dom().len() && stats.processed_timers == old(task)@.processed
                    && stats.cancelled_timers == old(task)@.cancelled),
                TimerTaskCommand::Shutdown => final(task)@ == old(task)@ && response
                    is ShuttingDown,
            }
        }),
{
    let was = old(task)@.timers;
    let post = final(task)@.timers;
    let first = old(task)@.next_id;
    old(task).law_wheel_holds_the_timers();
    match command {
        TimerTaskCommand::RegisterTimer { registration } => {
            assert(post.remove(first) =~= was.remove(first));
        },
        TimerTaskCommand::BatchRegisterTimers { batch_registration } => {
            let all = batch_registration.registrations@;
            assert forall|i: int| 0 <= i < all.len() implies {
                let registration = #[trigger] all[i];
                let entry = post[(first + i) as u64];
                &&& post.contains_key((first + i) as u64)
                &&& entry.expiry_time == now + registration.delay
                &&& entry.event.data.connection_id == registration.connection_id
                &&& entry.event.data.timeout_event == registration.timeout_event
                &&& entry.event.callback == registration.callback
            } by {
                assert(global::batch_for(all, first)[i].0 == all[i].delay);
            }
        },
        TimerTaskCommand::BatchCancelTimers { batch_cancellation } => {
            lemma_cancel_failures(was, batch_cancellation.entry_ids@);
        },
        TimerTaskCommand::ClearConnectionTimers { connection_id } => {
            assert forall|id: u64| #[trigger] post.contains_key(id) <==> was.contains_key(id)
                && was[id].event.data.connection_id != connection_id by {
                global::law_clear_takes_one_connection(was, connection_id, id);
            }
        },
        _ => {},
    }
}

/// An advance reports exactly the timers that are due, each once and as it is, and
/// leaves exactly the others.
pub proof fn law_task_advance_reports_what_is_due<E: EventDataTrait, C>(
    task: &mut GlobalTimerTask<E, C>,
    now: u64,
    expired: Vec<TimerEntry<TimerEvent<E, C>>>,
)
    requires
        old(task).wf(),
        call_ensures(GlobalTimerTask::<E, C>::advance_timing_wheel, (task, now), expired),
    ensures
        ring_moves(old(task).wheel(), final(task).wheel(), now),
        ({
            let was = old(task)@.timers;
            let post = final(task)@.timers;
            &&& forall|i: int|
                0 <= i < expired@.len() ==> {
                    let entry = #[trigger] expired@[i];
                    &&& was.contains_key(entry.id)
                    &&& entry == was[entry.id]
                    &&& entry.expiry_time <= now
                }
            &&& forall|i: int, j: int|
                0 <= i < j < expired@.len() ==> (#[trigger] expired@[i]).id != (
                #[trigger] expired@[j]).id
            &&& forall|id: u64|
                #![trigger was.contains_key(id)]
                was.contains_key(id) && was[id].expiry_time <= now ==> exists|i: int|
                    0 <= i < expired@.len() && (#[trigger] expired@[i]).id == id
            &&& forall|id: u64| #[trigger]
                post.contains_key(id) <==> was.contains_key(id) && was[id].expiry_time > now
            &&& forall|id: u64| #[trigger] post.contains_key(id) ==> post[id] == was[id]
            &&& final(task)@.next_id == old(task)@.next_id
            &&& final(task)@.cancelled == old(task)@.cancelled
            &&& final(task)@.processed == old(task)@.processed + expired@.len()
        }),
{
    old(task).law_wheel_holds_the_timers();
    lemma_ring_moves(old(task).wheel(), final(task).wheel(), now);
    let was = old(task)@.timers;
    let fired = wheel::due(was, now);
    assert forall|i: int| 0 <= i < expired@.len() implies {
        let entry = #[trigger] expired@[i];
        &&& was.contains_key(entry.id)
        &&& entry == was[entry.id]
        &&& entry.expiry_time <= now
    } by {
        assert(fired.contains_key(expired@[i].id));
    }
    assert forall|id: u64|
        #![trigger was.contains_key(id)]
        was.contains_key(id) && was[id].expiry_time <= now implies exists|i: int|
        0 <= i < expired@.len() && (#[trigger] expired@[i]).id == id by {
        assert(fired.contains_key(id));
        assert(wheel::lists(expired@, id));
    }
    lemma_list_is_as_long(expired@, fired);
}

/// A list of timers, each once, is as long as there are timers.
proof fn lemma_list_is_as_long<T>(entries: Seq<TimerEntry<T>>, timers: Map<u64, TimerEntry<T>>)
    requires
        wheel::enumerates(entries, timers),
    ensures
        entries.len() == timers.dom().len(),
{
    let ids = entries.map_values(|e: TimerEntry<T>| e.id);
    assert(ids.no_duplicates()) by {
        assert forall|i: int, j: int| 0 <= i < ids.len() && 0 <= j < ids.len() && i
            != j implies ids[i] != ids[j] by {
            assert(entries[i].id == ids[i] && entries[j].id == ids[j]);
        }
    }
    assert(ids.to_set() =~= timers.dom()) by {
        assert forall|id: u64| timers.dom().contains(id) implies ids.to_set().contains(id) by {
            assert(timers.contains_key(id));
            let i = choose|i: int| 0 <= i < entries.len() && (#[trigger] entries[i]).id == id;
            assert(ids[i] == id);
        }
        assert forall|id: u64| ids.to_set().contains(id) implies timers.dom().contains(id) by {
            let i = choose|i: int| 0 <= i < ids.len() && ids[i] == id;
            assert(entries[i].id == id);
        }
    }
    ids.unique_seq_to_set();
}

/// A timer fires at an advance exactly where its delay is over by then: an advance
/// at `t` reports it, with the connection, the event and the callback that it was
/// registered with, if and only if `t` is not before `now` and its delay. Until
/// then it stays, and once it has fired it is gone.
pub proof fn law_task_timer_fires_when_its_delay_is_over<E: EventDataTrait, C>(
    first: &mut GlobalTimerTask<E, C>,
    registration: TimerRegistration<E, C>,
    now: u64,
    handle: TimerHandle,
    second: &mut GlobalTimerTask<E, C>,
    t: u64,
    expired: Vec<TimerEntry<TimerEvent<E, C>>>,
)
    requires
        now + registration.delay <= u64::MAX,
        call_ensures(
            GlobalTimerTask::<E, C>::register_timer,
            (first, registration, now),
            Ok::<TimerHandle, TimerError>(handle),
        ),
        old(second)@ == final(first)@,
        call_ensures(GlobalTimerTask::<E, C>::advance_timing_wheel, (second, t), expired),
    ensures
        t >= now + registration.delay <==> exists|i: int|
            0 <= i < expired@.len() && (#[trigger] expired@[i]).id == handle.entry_id,
        forall|i: int|
            0 <= i < expired@.len() && (#[trigger] expired@[i]).id == handle.entry_id ==> {
                let event = expired@[i].event;
                &&& event.data.connection_id == registration.connection_id
                &&& event.data.timeout_event == registration.timeout_event
                &&& event.callback == registration.callback
            },
        final(second)@.timers.contains_key(handle.entry_id) <==> t < now + registration.delay,
{
    let id = handle.entry_id;
    let was = old(second)@.timers;
    let fired = wheel::due(was, t);
    assert(was.contains_key(id));
    if t >= now + registration.delay {
        assert(fired.contains_key(id));
        assert(wheel::lists(expired@, id));
    }
    assert forall|i: int| 0 <= i < expired@.len() && (#[trigger] expired@[i]).id == id implies t
        >= now + registration.delay && expired@[i] == was[id] by {
        assert(fired.contains_key(expired@[i].id));
    }
}

/// A timer of a batch fires when its own delay is over, and not before.
pub proof fn law_task_timer_of_a_batch_fires_when_its_delay_is_over<E: EventDataTrait, C>(
    first: &mut GlobalTimerTask<E, C>,
    batch_registration: BatchTimerRegistration<E, C>,
    now: u64,
    result: BatchTimerResult<TimerHandle>,
    k: int,
    second: &mut GlobalTimerTask<E, C>,
    t: u64,
    expired: Vec<TimerEntry<TimerEvent<E, C>>>,
)
    requires
        0 <= k < batch_registration.registrations@.len(),
        now + batch_registration.registrations@[k].delay <= u64::MAX,
        old(first)@.next_id + batch_registration.registrations@.len() <= u64::MAX,
        call_ensures(
            GlobalTimerTask::<E, C>::batch_register_timers,
            (first, batch_registration, now),
            result,
        ),
        old(second)@ == final(first)@,
        call_ensures(GlobalTimerTask::<E, C>::advance_timing_wheel, (second, t), expired),
    ensures
        t >= now + batch_registration.registrations@[k].delay <==> exists|i: int|
            0 <= i < expired@.len() && (#[trigger] expired@[i]).id
                == result.successes@[k].entry_id,
        final(second)@.timers.contains_key(result.successes@[k].entry_id) <==> t < now
            + batch_registration.registrations@[k].delay,
{
    let id = result.successes@[k].entry_id;
    let was = old(second)@.timers;
    let fired = wheel::due(was, t);
    law_task_timers_of_a_batch_are_due_after_their_delays(
        first,
        batch_registration,
        now,
        result,
        k,
    );
    assert(was.contains_key(id));
    if t >= now + batch_registration.registrations@[k].delay {
        assert(fired.contains_key(id));
        assert(wheel::lists(expired@, id));
    }
    assert forall|i: int| 0 <= i < expired@.len() && (#[trigger] expired@[i]).id == id implies t
        >= now + batch_registration.registrations@[k].delay by {
        assert(fired.contains_key(expired@[i].id));
    }
}

/// A timer that was cancelled is reported by no advance.
pub proof fn law_task_cancelled_timer_is_not_reported<E: EventDataTrait, C>(
    first: &mut GlobalTimerTask<E, C>,
    entry_id: u64,
    cancelled: bool,
    second: &mut GlobalTimerTask<E, C>,
    t: u64,
    expired: Vec<TimerEntry<TimerEvent<E, C>>>,
    i: int,
)
    requires
        call_ensures(GlobalTimerTask::<E, C>::cancel_timer, (first, entry_id), cancelled),
        old(second)@ == final(first)@,
        call_ensures(GlobalTimerTask::<E, C>::advance_timing_wheel, (second, t), expired),
        0 <= i < expired@.len(),
    ensures
        expired@[i].id != entry_id,
{
    assert(wheel::due(old(second)@.timers, t).contains_key(expired@[i].id));
}

/// An advance tells of exactly the timers that are due, each once, to the callback of
/// the timer and with its data, and leaves exactly the others. A batch is worked off
/// in parallel where it is as large as the threshold.
pub proof fn law_hybrid_advance_tells_of_what_is_due<E: EventDataTrait, C: Clone + Sync>(
    task: &mut HybridTimerTask<E, C>,
    now: u64,
    advance: HybridAdvance<E, C>,
)
    requires
        old(task).wf(),
        call_ensures(HybridTimerTask::<E, C>::advance_timing_wheel_hybrid, (task, now), advance),
    ensures
        ring_moves(old(task).base().wheel(), final(task).base().wheel(), now),
        final(task).threshold() == old(task).threshold(),
        ({
            let was = old(task)@.timers;
            let post = final(task)@.timers;
            let told = advance.notifications@;
            &&& forall|i: int|
                0 <= i < told.len() ==> {
                    let id = (#[trigger] told[i]).entry_id;
                    &&& was.contains_key(id)
                    &&& was[id].expiry_time <= now
                    &&& cloned(was[id].event.callback, told[i].callback)
                    &&& told[i].data.connection_id == was[id].event.data.connection_id
                    &&& cloned(was[id].event.data.timeout_event, told[i].data.timeout_event)
                }
            &&& forall|i: int, j: int|
                0 <= i < j < told.len() ==> (#[trigger] told[i]).entry_id != (
                #[trigger] told[j]).entry_id
            &&& forall|id: u64|
                #![trigger was.contains_key(id)]
                was.contains_key(id) && was[id].expiry_time <= now ==> exists|i: int|
                    0 <= i < told.len() && (#[trigger] told[i]).entry_id == id
            &&& forall|id: u64| #[trigger]
                post.contains_key(id) <==> was.contains_key(id) && was[id].expiry_time > now
            &&& forall|id: u64| #[trigger] post.contains_key(id) ==> post[id] == was[id]
            &&& final(task)@.next_id == old(task)@.next_id
            &&& final(task)@.cancelled == old(task)@.cancelled
            &&& final(task)@.processed == old(task)@.processed + told.len()
            &&& advance.batch is Some <==> told.len() > 0 && told.len() >= old(task).threshold()
            &&& final(task).threshold() == old(task).threshold()
        }),
{
    old(task).law_wheel_holds_the_timers();
    lemma_ring_moves(old(task).base().wheel(), final(task).base().wheel(), now);
    let was = old(task)@.timers;
    let fired = wheel::due(was, now);
    let told = advance.notifications@;
    let expired = choose|expired: Seq<TimerEntry<TimerEvent<E, C>>>|
        {
            &&& #[trigger] wheel::enumerates(expired, fired)
            &&& crate::timer::hybrid_system::advanced_with(
                old(task).parallel(),
                old(task).threshold(),
                expired,
                final(task).parallel(),
                advance,
            )
        };
    lemma_list_is_as_long(expired, fired);
    assert forall|i: int| 0 <= i < told.len() implies {
        let id = (#[trigger] told[i]).entry_id;
        &&& was.contains_key(id)
        &&& was[id].expiry_time <= now
        &&& cloned(was[id].event.callback, told[i].callback)
        &&& told[i].data.connection_id == was[id].event.data.connection_id
        &&& cloned(was[id].event.data.timeout_event, told[i].data.timeout_event)
    } by {
        assert(fired.contains_key(expired[i].id));
    }
    assert forall|i: int, j: int| 0 <= i < j < told.len() implies (#[trigger] told[i]).entry_id != (
    #[trigger] told[j]).entry_id by {
        assert(expired[i].id != expired[j].id);
    }
    assert forall|id: u64|
        #![trigger was.contains_key(id)]
        was.contains_key(id) && was[id].expiry_time <= now implies exists|i: int|
        0 <= i < told.len() && (#[trigger] told[i]).entry_id == id by {
        assert(fired.contains_key(id));
        assert(wheel::lists(expired, id));
        let i = choose|i: int| 0 <= i < expired.len() && (#[trigger] expired[i]).id == id;
        assert(told[i].entry_id == id);
    }
}

/// With the parallel system too, a timer is told of at an advance exactly where its
/// delay is over by then.
pub proof fn law_hybrid_timer_fires_when_its_delay_is_over<E: EventDataTrait, C: Clone + Sync>(
    first: &mut HybridTimerTask<E, C>,
    registration: TimerRegistration<E, C>,
    now: u64,
    handle: TimerHandle,
    second: &mut HybridTimerTask<E, C>,
    t: u64,
    advance: HybridAdvance<E, C>,
)
    requires
        now + registration.delay <= u64::MAX,
        old(second).wf(),
        call_ensures(
            HybridTimerTask::<E, C>::register_timer,
            (first, registration, now),
            Ok::<TimerHandle, TimerError>(handle),
        ),
        old(second)@ == final(first)@,
        call_ensures(HybridTimerTask::<E, C>::advance_timing_wheel_hybrid, (second, t), advance),
    ensures
        t >= now + registration.delay <==> exists|i: int|
            0 <= i < advance.notifications@.len() && (#[trigger] advance.notifications@[i]).entry_id
                == handle.entry_id,
        forall|i: int|
            0 <= i < advance.notifications@.len() && (#[trigger] advance.notifications@[i]).entry_id
                == handle.entry_id ==> cloned(
                registration.callback,
                advance.notifications@[i].callback,
            ),
        final(second)@.timers.contains_key(handle.entry_id) <==> t < now + registration.delay,
{
    law_hybrid_advance_tells_of_what_is_due(second, t, advance);
    assert(old(second)@.timers.contains_key(handle.entry_id));
}

/// A new task has no timers, and a wheel of ten milliseconds a tick that starts now.
pub proof fn law_tasks_start_without_timers<E: EventDataTrait, C: Clone + Sync>(
    now: u64,
    task: GlobalTimerTask<E, C>,
    threshold: usize,
    hybrid: HybridTimerTask<E, C>,
    default: HybridTimerTask<E, C>,
)
    requires
        call_ensures(GlobalTimerTask::<E, C>::new, (now,), task),
        call_ensures(HybridTimerTask::<E, C>::new, (threshold, now), hybrid),
        call_ensures(HybridTimerTask::<E, C>::new_default, (now,), default),
    ensures
        task.wheel().spec_current_tick() == 0,
        hybrid.base().wheel().spec_start_time() == now,
        hybrid.base().wheel().spec_current_tick() == 0,
        default.base().wheel().spec_start_time() == now,
        default.base().wheel().spec_current_tick() == 0,
        hybrid.parallel().cores() >= 1,
        default.parallel().cores() >= 1,
        laws::as_new(hybrid.parallel(), hybrid.parallel().cores()),
        laws::as_new(default.parallel(), default.parallel().cores()),
        forall|id: u64| !#[trigger] task@.timers.contains_key(id),
        forall|id: u64| !#[trigger] hybrid@.timers.contains_key(id),
        forall|id: u64| !#[trigger] default@.timers.contains_key(id),
        task@.processed == 0 && task@.cancelled == 0 && task@.next_id == 1,
        hybrid@.processed == 0 && hybrid@.cancelled == 0 && hybrid@.next_id == 1,
        default@.processed == 0 && default@.cancelled == 0 && default@.next_id == 1,
        hybrid.threshold() == threshold,
        default.threshold() == 32,
        task.wheel().spec_slot_duration() == 10_000_000,
        task.wheel().spec_start_time() == now,
        hybrid.base().wheel().spec_slot_duration() == 10_000_000,
        default.base().wheel().spec_slot_duration() == 10_000_000,
{
    laws::lemma_as_new(hybrid.parallel(), hybrid.parallel().cores());
    laws::lemma_as_new(default.parallel(), default.parallel().cores());
}

/// A wheel keeps a timer until its delay is over: an advance at `t` hands it out
/// exactly where `t` is not before `now` and the delay.
pub proof fn law_wheel_hands_out_a_timer_when_its_delay_is_over<T>(
    first: &mut TimingWheel<T>,
    delay: u64,
    event: T,
    now: u64,
    id: u64,
    second: &mut TimingWheel<T>,
    t: u64,
    expired: Vec<TimerEntry<T>>,
)
    requires
        now + delay <= u64::MAX,
        call_ensures(TimingWheel::<T>::add_timer, (first, delay, event, now), id),
        old(second)@ == final(first)@,
        call_ensures(TimingWheel::<T>::advance, (second, t), expired),
    ensures
        final(first)@.contains_key(id),
        final(first)@[id] == (TimerEntry { id, expiry_time: (now + delay) as u64, event }),
        final(first)@.remove(id) == old(first)@.remove(id),
        t >= now + delay <==> exists|i: int|
            0 <= i < expired@.len() && (#[trigger] expired@[i]).id == id,
        final(second)@.contains_key(id) <==> t < now + delay,
        forall|i: int|
            0 <= i < expired@.len() && (#[trigger] expired@[i]).id == id ==> expired@[i].event
                == event,
{
    assert(final(first)@.remove(id) =~= old(first)@.remove(id));
    let was = old(second)@;
    let fired = wheel::due(was, t);
    assert(was.contains_key(id));
    if t >= now + delay {
        assert(fired.contains_key(id));
        assert(wheel::lists(expired@, id));
    }
    assert forall|i: int| 0 <= i < expired@.len() && (#[trigger] expired@[i]).id == id implies t
        >= now + delay && expired@[i] == was[id] by {
        assert(fired.contains_key(expired@[i].id));
    }
}

/// An advance of the wheel hands out exactly the timers that are due, each once and as
/// it is, and keeps exactly the others.
pub proof fn law_wheel_advance_hands_out_what_is_due<T>(
    wheel: &mut TimingWheel<T>,
    now: u64,
    expired: Vec<TimerEntry<T>>,
)
    requires
        old(wheel).wf(),
        call_ensures(TimingWheel::<T>::advance, (wheel, now), expired),
    ensures
        ring_moves(*old(wheel), *final(wheel), now),
        final(wheel).next_id() == old(wheel).next_id(),
        ({
            let was = old(wheel)@;
            let post = final(wheel)@;
            &&& forall|i: int|
                0 <= i < expired@.len() ==> {
                    let entry = #[trigger] expired@[i];
                    was.contains_key(entry.id) && entry == was[entry.id] && entry.expiry_time <= now
                }
            &&& forall|i: int, j: int|
                0 <= i < j < expired@.len() ==> (#[trigger] expired@[i]).id != (
                #[trigger] expired@[j]).id
            &&& forall|id: u64|
                #![trigger was.contains_key(id)]
                was.contains_key(id) && was[id].expiry_time <= now ==> exists|i: int|
                    0 <= i < expired@.len() && (#[trigger] expired@[i]).id == id
            &&& forall|id: u64| #[trigger]
                post.contains_key(id) <==> was.contains_key(id) && was[id].expiry_time > now
            &&& forall|id: u64| #[trigger] post.contains_key(id) ==> post[id] == was[id]
            &&& final(wheel).next_id() == old(wheel).next_id()
        }),
{
    lemma_ring_moves(*old(wheel), *final(wheel), now);
    let was = old(wheel)@;
    let fired = wheel::due(was, now);
    assert forall|i: int| 0 <= i < expired@.len() implies {
        let entry = #[trigger] expired@[i];
        was.contains_key(entry.id) && entry == was[entry.id] && entry.expiry_time <= now
    } by {
        assert(fired.contains_key(expired@[i].id));
    }
    assert forall|id: u64|
        #![trigger was.contains_key(id)]
        was.contains_key(id) && was[id].expiry_time <= now implies exists|i: int|
        0 <= i < expired@.len() && (#[trigger] expired@[i]).id == id by {
        assert(fired.contains_key(id));
        assert(wheel::lists(expired@, id));
    }
}

/// Cancelling takes the named timers out of the wheel and no others, one by one and in
/// a batch, and says whether or how many there were. Clearing takes all.
pub proof fn law_wheel_cancellation_takes_the_named_timers<T>(
    one: &mut TimingWheel<T>,
    id: u64,
    cancelled: bool,
    many: &mut TimingWheel<T>,
    ids: &[u64],
    count: usize,
    all: &mut TimingWheel<T>,
    other: u64,
)
    requires
        call_ensures(TimingWheel::<T>::cancel_timer, (one, id), cancelled),
        call_ensures(TimingWheel::<T>::batch_cancel_timers, (many, ids), count),
        call_ensures(TimingWheel::<T>::clear, (all,), ()),
    ensures
        cancelled <==> old(one)@.contains_key(id),
        final(one)@.contains_key(other) <==> old(one)@.contains_key(other) && other != id,
        final(one)@.contains_key(other) ==> final(one)@[other] == old(one)@[other],
        final(many)@.contains_key(other) <==> old(many)@.contains_key(other) && !ids@.contains(
            other,
        ),
        final(many)@.contains_key(other) ==> final(many)@[other] == old(many)@[other],
        count == old(many)@.dom().len() - final(many)@.dom().len(),
        !final(all)@.contains_key(other),
{
}

/// A batch of timers gets identifiers that follow each other, and each timer its own
/// delay and event. The others stay.
pub proof fn law_wheel_batch_keeps_delays_apart<T>(
    wheel: &mut TimingWheel<T>,
    batch: Vec<(u64, T)>,
    now: u64,
    ids: Vec<u64>,
    i: int,
    other: u64,
)
    requires
        0 <= i < batch@.len(),
        now + batch@[i].0 <= u64::MAX,
        old(wheel).next_id() + batch@.len() <= u64::MAX,
        call_ensures(TimingWheel::<T>::batch_add_timers, (wheel, batch, now), ids),
    ensures
        ids@.len() == batch@.len(),
        ids@[i] == old(wheel).next_id() + i,
        final(wheel)@.contains_key(ids@[i]),
        final(wheel)@[ids@[i]].id == ids@[i],
        final(wheel)@[ids@[i]].expiry_time == now + batch@[i].0,
        final(wheel)@[ids@[i]].event == batch@[i].1,
        !ids@.contains(other) ==> (final(wheel)@.contains_key(other) <==> old(
            wheel)@.contains_key(other)),
        !ids@.contains(other) && old(wheel)@.contains_key(other) ==> final(wheel)@[other] == old(
            wheel)@[other],
{
    let first = old(wheel).next_id();
    if first <= other < first + batch@.len() {
        assert(ids@[other - first] == other);
    }
}

/// The next instant at which a timer is due is that of the first one, and there is none
/// where there is no timer.
pub proof fn law_wheel_knows_the_first_timer<T>(
    wheel: &mut TimingWheel<T>,
    next: Option<u64>,
    id: u64,
)
    requires
        call_ensures(TimingWheel::<T>::next_expiry_time, (wheel,), next),
    ensures
        final(wheel)@ == old(wheel)@,
        old(wheel)@.contains_key(id) ==> (next matches Some(t) && t <= old(wheel)@[id].expiry_time),
        next matches Some(t) ==> exists|first: u64| #[trigger]
            old(wheel)@.contains_key(first) && old(wheel)@[first].expiry_time == t,
{
}

/// A new wheel is empty and has the ring that it was asked for; the figures count its
/// slots and its timers.
pub proof fn law_wheel_counts_its_timers<T>(
    slot_count: usize,
    slot_duration: u64,
    now: u64,
    fresh: TimingWheel<T>,
    some: TimingWheel<T>,
    n: usize,
    empty: bool,
    stats: TimingWheelStats,
    slots: usize,
    tick: u64,
)
    requires
        call_ensures(TimingWheel::<T>::new, (slot_count, slot_duration, now), fresh),
        call_ensures(TimingWheel::<T>::timer_count, (&some,), n),
        call_ensures(TimingWheel::<T>::is_empty, (&some,), empty),
        call_ensures(TimingWheel::<T>::stats, (&some,), stats),
        call_ensures(TimingWheel::<T>::slot_count, (&fresh,), slots),
        call_ensures(TimingWheel::<T>::slot_duration, (&fresh,), tick),
    ensures
        fresh.spec_current_tick() == 0,
        fresh.next_id() == 1,
        stats.non_empty_slots == some@.dom().map(
            |id: u64| slot_at(some, some@[id].expiry_time),
        ).len(),
        forall|id: u64| !#[trigger] fresh@.contains_key(id),
        fresh.spec_start_time() == now,
        slots == slot_count,
        tick == slot_duration,
        n == some@.dom().len(),
        stats.total_timers == n,
        stats.total_slots == some.spec_slot_count(),
        empty <==> forall|id: u64| !#[trigger] some@.contains_key(id),
{
    lemma_occupied(some);
    if forall|id: u64| !#[trigger] some@.contains_key(id) {
        assert(some@ =~= Map::empty());
    }
}

/// The loop of a task advances when the interval is over and when a timer is due, ends
/// at the command to end, and looks once a second at how often to advance.
pub proof fn law_loop_advances_on_time(
    schedule: &mut AdvanceSchedule,
    event: LoopEvent,
    now: u64,
    interval: u64,
    action: LoopAction,
)
    requires
        now + 1_000_000_000 <= u64::MAX,
        call_ensures(AdvanceSchedule::react, (schedule, event, now, interval), action),
    ensures
        ({
            let look = event is UpdateDue || (event == (LoopEvent::Command { shutdown: false })
                && now >= old(schedule).next_update);
            &&& action is Advance <==> event is IntervalTick || event is Wakeup
            &&& action is Stop <==> event == (LoopEvent::Command { shutdown: true })
            &&& look ==> action == (LoopAction::SetInterval { interval })
            &&& action is Wait <==> event == (LoopEvent::Command { shutdown: false }) && !look
            &&& look ==> final(schedule).interval == interval && final(schedule).next_update == now
                + 1_000_000_000
            &&& !look ==> *final(schedule) == *old(schedule)
        }),
{
}

/// A schedule starts with the interval that it is given, and looks at it again in a second.
pub proof fn law_schedule_starts_with_its_interval(
    interval: u64,
    now: u64,
    schedule: AdvanceSchedule,
)
    requires
        call_ensures(AdvanceSchedule::new, (interval, now), schedule),
    ensures
        schedule.interval == interval,
        schedule.next_update == now + 1_000_000_000,
{
}

/// A timer belongs to the connection that it was linked to until it is unlinked, and a
/// connection has exactly the timers that were linked to it, each once.
pub proof fn law_index_knows_the_timers_of_a_connection(
    first: &mut ConnectionIndex,
    id: u64,
    connection: ConnectionId,
    second: &mut ConnectionIndex,
    gone: u64,
    was: Option<ConnectionId>,
    after: ConnectionIndex,
    asked: ConnectionId,
    ids: Vec<u64>,
    x: u64,
)
    requires
        call_ensures(ConnectionIndex::link, (first, id, connection), ()),
        *old(second) == *final(first),
        call_ensures(ConnectionIndex::unlink, (second, gone), was),
        after == *final(second),
        call_ensures(ConnectionIndex::entries, (&after, asked), ids),
    ensures
        ids@.no_duplicates(),
        ids@.contains(x) <==> x != gone && (if x == id {
            connection == asked
        } else {
            old(first)@.contains_key(x) && old(first)@[x] == asked
        }),
        gone == id ==> was == Some(connection),
        gone != id ==> was == (if old(first)@.contains_key(gone) {
            Some(old(first)@[gone])
        } else {
            None
        }),
{
    assert(ids@.contains(x) <==> ids@.to_set().contains(x));
}

/// A batch holds what was added to it, in that order.
pub proof fn law_batches_keep_their_order<E, C>(
    registrations: &mut BatchTimerRegistration<E, C>,
    registration: TimerRegistration<E, C>,
    cancellations: &mut BatchTimerCancellation,
    entry_id: u64,
)
    requires
        call_ensures(BatchTimerRegistration::<E, C>::add, (registrations, registration), ()),
        call_ensures(BatchTimerCancellation::add, (cancellations, entry_id), ()),
    ensures
        final(registrations).registrations@ == old(registrations).registrations@.push(registration),
        final(cancellations).entry_ids@ == old(cancellations).entry_ids@.push(entry_id),
{
}

/// The counts of a result are those of its lists, and all succeeded where none failed.
pub proof fn law_results_count_their_entries<T>(
    result: BatchTimerResult<T>,
    successes: usize,
    failures: usize,
    all: bool,
)
    requires
        call_ensures(BatchTimerResult::<T>::success_count, (&result,), successes),
        call_ensures(BatchTimerResult::<T>::failure_count, (&result,), failures),
        call_ensures(BatchTimerResult::<T>::all_succeeded, (&result,), all),
    ensures
        successes == result.successes@.len(),
        failures == result.failures@.len(),
        all <==> result.failures@.len() == 0,
{
}

/// A registration carries what it is made of.
pub proof fn law_registrations_carry_what_they_are_given<E, C>(
    connection_id: ConnectionId,
    delay: u64,
    timeout_event: E,
    callback: C,
    registration: TimerRegistration<E, C>,
)
    requires
        call_ensures(
            TimerRegistration::<E, C>::new,
            (connection_id, delay, timeout_event, callback),
            registration,
        ),
    ensures
        registration.connection_id == connection_id,
        registration.delay == delay,
        registration.timeout_event == timeout_event,
        registration.callback == callback,
{
}

/// Requests, batches, results and handles hold what they are made of.
pub proof fn law_requests_hold_what_they_are_made_of<E, C>(
    connection_id: ConnectionId,
    delay: u64,
    timeout_event: E,
    callback: C,
    registration: TimerRegistration<E, C>,
    quiet: TimerRegistration<E, NoOpCallback<E>>,
    registrations: Vec<TimerRegistration<E, C>>,
    batch: BatchTimerRegistration<E, C>,
    ids: Vec<u64>,
    cancellation: BatchTimerCancellation,
    entry_id: u64,
    handle: TimerHandle,
)
    requires
        call_ensures(
            TimerRegistration::<E, C>::new,
            (connection_id, delay, timeout_event, callback),
            registration,
        ),
        call_ensures(
            TimerRegistration::<E, NoOpCallback<E>>::with_no_op,
            (connection_id, delay, timeout_event),
            quiet,
        ),
        call_ensures(BatchTimerRegistration::<E, C>::new, (registrations,), batch),
        call_ensures(BatchTimerCancellation::new, (ids,), cancellation),
        call_ensures(TimerHandle::new, (entry_id,), handle),
    ensures
        registration.connection_id == connection_id,
        registration.delay == delay,
        registration.timeout_event == timeout_event,
        registration.callback == callback,
        quiet.connection_id == connection_id,
        quiet.delay == delay,
        quiet.timeout_event == timeout_event,
        batch.registrations == registrations,
        cancellation.entry_ids == ids,
        handle.entry_id == entry_id,
{
}

/// Batches and results that are made with room alone are empty.
pub proof fn law_room_alone_is_empty<E, C, T>(
    capacity: usize,
    batch: BatchTimerRegistration<E, C>,
    cancellation: BatchTimerCancellation,
    result: BatchTimerResult<T>,
    fresh: BatchTimerResult<T>,
    other: BatchTimerResult<T>,
)
    requires
        call_ensures(BatchTimerRegistration::<E, C>::with_capacity, (capacity,), batch),
        call_ensures(BatchTimerCancellation::with_capacity, (capacity,), cancellation),
        call_ensures(BatchTimerResult::<T>::with_capacity, (capacity,), result),
        call_ensures(BatchTimerResult::<T>::new, (), fresh),
        call_ensures(BatchTimerResult::<T>::default, (), other),
    ensures
        batch.registrations@.len() == 0,
        cancellation.entry_ids@.len() == 0,
        result.successes@.len() == 0,
        result.failures@.len() == 0,
        fresh.successes@.len() == 0,
        fresh.failures@.len() == 0,
        other.successes@.len() == 0,
        other.failures@.len() == 0,
{
}

/// A closure that is given as a callback is the one that is called, with the data of the
/// event; a callback that does nothing always succeeds.
pub proof fn law_callbacks_do_what_they_are_made_for<
    E,
    F: Fn(TimerEventData<E>) -> Result<(), ()>,
>(
    closure: F,
    callback: ClosureCallback<E, F>,
    connection_id: ConnectionId,
    delay: u64,
    timeout_event: E,
    registration: TimerRegistration<E, ClosureCallback<E, F>>,
    data: TimerEventData<E>,
    answer: Result<(), ()>,
    second: Result<(), ()>,
    quiet: NoOpCallback<E>,
    silence: Result<(), ()>,
)
    requires
        call_ensures(ClosureCallback::<E, F>::new, (closure,), callback),
        call_ensures(
            TimerRegistration::<E, ClosureCallback<E, F>>::with_closure,
            (connection_id, delay, timeout_event, closure),
            registration,
        ),
        call_ensures(
            <ClosureCallback<E, F> as TimerCallback<E>>::on_timeout,
            (&callback, data),
            answer,
        ),
        call_ensures(
            <ClosureCallback<E, F> as TimerCallback<E>>::on_timeout,
            (&registration.callback, data),
            second,
        ),
        call_ensures(
            <NoOpCallback<E> as TimerCallback<E>>::on_timeout,
            (&quiet, data),
            silence,
        ),
    ensures
        call_ensures(closure, (data,), answer),
        call_ensures(closure, (data,), second),
        registration.connection_id == connection_id,
        registration.delay == delay,
        registration.timeout_event == timeout_event,
        silence is Ok,
{
    assert(callback.answers(data, answer));
    assert(registration.callback.answers(data, second));
}

/// A new index links nothing, and an index counts the connections that have a timer.
pub proof fn law_index_counts_the_connections(
    fresh: ConnectionIndex,
    index: ConnectionIndex,
    n: usize,
)
    requires
        call_ensures(ConnectionIndex::new, (), fresh),
        call_ensures(ConnectionIndex::connection_count, (&index,), n),
    ensures
        forall|id: u64| !#[trigger] fresh@.contains_key(id),
        n == index@.values().len(),
{
}

/// A wheel with the default layout is empty and has 512 slots of 100 milliseconds each;
/// the slot it stands at goes round with its ticks.
pub proof fn law_default_wheel<T>(now: u64, wheel: TimingWheel<T>, at: usize, other: TimingWheel<T>)
    requires
        call_ensures(TimingWheel::<T>::new_default, (now,), wheel),
        call_ensures(TimingWheel::<T>::current_slot, (&other,), at),
    ensures
        forall|id: u64| !#[trigger] wheel@.contains_key(id),
        wheel.next_id() == 1,
        wheel.spec_slot_count() == 512,
        wheel.spec_slot_duration() == 100_000_000,
        wheel.spec_start_time() == now,
        wheel.spec_current_tick() == 0,
        at == other.spec_current_tick() as int % other.spec_slot_count() as int,
{
}

/// When the events of a batch are out, it is counted once and under its strategy, its
/// timers and its time are added up, and the report says what the channels took where
/// they were used. The timers stay as they are.
pub proof fn law_hybrid_counts_a_finished_batch_once<E: EventDataTrait, C: Clone + Sync>(
    task: &mut HybridTimerTask<E, C>,
    result: ProcessingResult,
    sent: Option<usize>,
    duration: u64,
    report: ParallelProcessingResult,
    stats: &ParallelProcessingStats,
    channels: &AsyncEventDispatcher<E>,
)
    requires
        old(task).wf(),
        old(task).parallel().wf(),
        old(task).parallel().spec_stats().total_batches_processed < u64::MAX,
        call_ensures(
            HybridTimerTask::<E, C>::finish_batch,
            (task, result, sent, duration),
            report,
        ),
        call_ensures(HybridTimerTask::<E, C>::get_parallel_stats, (&*final(task),), stats),
        call_ensures(HybridTimerTask::<E, C>::event_channels, (&*final(task),), channels),
    ensures
        ({
            let before = old(task).parallel().spec_stats();
            &&& stats.total_batches_processed == before.total_batches_processed + 1
            &&& stats.simd_only_count == before.simd_only_count
                + if result.strategy_used is SIMDOnly {
                1int
            } else {
                0
            }
            &&& stats.simd_rayon_count == before.simd_rayon_count
                + if result.strategy_used is SIMDWithRayon {
                1int
            } else {
                0
            }
            &&& stats.full_hybrid_count == before.full_hybrid_count
                + if result.strategy_used is FullHybrid {
                1int
            } else {
                0
            }
            &&& before.total_processing_time_ns + duration <= u64::MAX
                ==> stats.total_processing_time_ns == before.total_processing_time_ns + duration
            &&& before.total_operations_processed + result.processed_count <= u64::MAX
                ==> stats.total_operations_processed == before.total_operations_processed
                + result.processed_count
        }),
        report.processed_count == result.processed_count,
        report.processing_duration == duration,
        report.strategy_used == result.strategy_used,
        sent matches Some(n) ==> report.detailed_stats.async_dispatches == n,
        sent is None ==> report.detailed_stats == result.detailed_stats,
        *channels == old(task).parallel().fallback(),
        final(task)@ == old(task)@,
        final(task).base() == old(task).base(),
        final(task).threshold() == old(task).threshold(),
{
    old(task).parallel().law_strategy_counts_add_up();
}

/// No timer gets the identifier of another: identifiers only grow, whatever else is done
/// with the wheel, which moves on with an advance alone.
pub proof fn law_wheel_gives_each_timer_its_own_identifier<T>(
    added: &mut TimingWheel<T>,
    delay: u64,
    event: T,
    now: u64,
    id: u64,
    many: &mut TimingWheel<T>,
    batch: Vec<(u64, T)>,
    ids: Vec<u64>,
    cancelled: &mut TimingWheel<T>,
    gone: u64,
    was: bool,
    several: &mut TimingWheel<T>,
    named: &[u64],
    count: usize,
    asked: &mut TimingWheel<T>,
    next: Option<u64>,
    cleared: &mut TimingWheel<T>,
    again: &mut TimingWheel<T>,
    last: u64,
)
    requires
        call_ensures(TimingWheel::<T>::add_timer, (added, delay, event, now), id),
        *old(many) == *final(added),
        call_ensures(TimingWheel::<T>::batch_add_timers, (many, batch, now), ids),
        *old(cancelled) == *final(many),
        call_ensures(TimingWheel::<T>::cancel_timer, (cancelled, gone), was),
        *old(several) == *final(cancelled),
        call_ensures(TimingWheel::<T>::batch_cancel_timers, (several, named), count),
        *old(asked) == *final(several),
        call_ensures(TimingWheel::<T>::next_expiry_time, (asked,), next),
        *old(cleared) == *final(asked),
        call_ensures(TimingWheel::<T>::clear, (cleared,), ()),
        *old(again) == *final(cleared),
        call_ensures(TimingWheel::<T>::add_timer, (again, delay, event, now), last),
    ensures
        !old(added)@.contains_key(id),
        last == id + 1 + batch@.len(),
        final(again).next_id() == last + 1,
        id == old(added).next_id(),
        final(many).next_id() == old(many).next_id() + batch@.len(),
        ring_stays(*old(added), *final(again)),
        ring_stays(*old(added), *final(added)),
        ring_stays(*old(added), *final(many)),
        ring_stays(*old(added), *final(cancelled)),
        ring_stays(*old(added), *final(several)),
        ring_stays(*old(added), *final(asked)),
        final(asked)@ == old(asked)@,
{
}

/// Whether the batch has one entry for each notification, with its identifier and its
/// connection.
pub open spec fn told_of<E, C>(
    told: Seq<TimerNotification<E, C>>,
    entries: Seq<TimerEntry<TimerEvent<E, C>>>,
) -> bool {
    &&& entries.len() == told.len()
    &&& forall|i: int|
        0 <= i < told.len() ==> (#[trigger] entries[i]).id == told[i].entry_id
            && entries[i].event.data.connection_id == told[i].data.connection_id
}

/// A batch that an advance works off in parallel holds the timers that it tells of. Up to
/// 64 of them go the direct path, and up to 128 where there is one processor and no
/// runtime; all others go by their strategy. Without a batch the parallel part is not
/// touched, and no batch is counted before its events are out.
pub proof fn law_hybrid_batch_is_worked_off<E: EventDataTrait, C: Clone + Sync>(
    task: &mut HybridTimerTask<E, C>,
    now: u64,
    advance: HybridAdvance<E, C>,
)
    requires
        old(task).wf(),
        call_ensures(HybridTimerTask::<E, C>::advance_timing_wheel_hybrid, (task, now), advance),
        advance.notifications@.len() <= usize::MAX,
    ensures
        advance.batch is None ==> final(task).parallel() == old(task).parallel(),
        final(task).parallel().spec_stats() == old(task).parallel().spec_stats(),
        final(task).parallel().cores() == old(task).parallel().cores(),
        final(task).parallel().chunk_size() == old(task).parallel().chunk_size(),
        advance.batch matches Some(outcome) ==> {
            let n = advance.notifications@.len();
            let before = old(task).parallel();
            let after = final(task).parallel();
            let alone = before.selector().threads() == 1 && !after.selector().in_runtime();
            let direct = n <= 64 || (n <= 128 && alone);
            &&& direct ==> laws::worked_off_directly(outcome.0, n as int) && outcome.1 is None
                && after.dispatcher() == before.dispatcher() && after.fallback()
                == before.fallback()
            &&& !direct ==> exists|
                entries: Seq<TimerEntry<TimerEvent<E, C>>>,
                events: Seq<TimerEventData<E>>,
                dispatched: usize,
                middle: DispatcherState<E>,
                back: Seq<TimerEventData<E>>,
            |
                told_of(advance.notifications@, entries) && #[trigger] laws::worked_off_as_planned(
                    before,
                    entries,
                    events,
                    dispatched,
                    middle,
                    back,
                    after,
                    outcome,
                )
        },
{
    old(task).law_wheel_holds_the_timers();
    let before = old(task).parallel();
    let after = final(task).parallel();
    let fired = wheel::due(old(task)@.timers, now);
    let told = advance.notifications@;
    assert forall|expired: Seq<TimerEntry<TimerEvent<E, C>>>| #[trigger]
        wheel::enumerates(expired, fired) && crate::timer::hybrid_system::advanced_with(
            before,
            old(task).threshold(),
            expired,
            after,
            advance,
        ) implies told_of(told, expired) && (advance.batch matches Some(outcome)
        ==> ({
        let n = told.len();
        let alone = before.selector().threads() == 1 && !after.selector().in_runtime();
        !(n <= 64 || (n <= 128 && alone)) ==> exists|
            events: Seq<TimerEventData<E>>,
            dispatched: usize,
            middle: DispatcherState<E>,
            back: Seq<TimerEventData<E>>,
        |
            #[trigger] laws::worked_off_as_planned(
                before,
                expired,
                events,
                dispatched,
                middle,
                back,
                after,
                outcome,
            )
    })) by {
        assert forall|i: int| 0 <= i < told.len() implies (#[trigger] expired[i]).id
            == told[i].entry_id && expired[i].event.data.connection_id
            == told[i].data.connection_id by {
            let _ = told[i];
        }
        let alone = before.selector().threads() == 1 && !after.selector().in_runtime();
        if advance.batch is Some && !(told.len() <= 64 || (told.len() <= 128 && alone)) {
            laws::lemma_worked_off(before, expired, after, advance.batch->0);
        }
    }
}

} // verus!
