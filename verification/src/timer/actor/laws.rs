//! What the timer actor does, stated of its functions one by one and of several
//! calls in a row.

use vstd::prelude::*;

use crate::timer::actor::state;
use crate::timer::actor::state::{ActiveTimer, ActorState, BufferedTimer, StartedTimer};
use crate::timer::actor::{
    ActorStep, ActorTimerId, ActorWork, CancelJob, RegisterJob, TimerActor, TimerActorCommand,
    TimerActorConfig, TimerActorResponse, TimerActorStats, TimerInfo, TypeCancelJob,
};
use crate::timer::event::{ConnectionId, TimeoutEvent};
use crate::timer::task::commands::TimerError;
use crate::timer::task::types::{
    BatchTimerCancellation, BatchTimerRegistration, BatchTimerResult, TimerHandle,
    TimerRegistration,
};

verus! {

/// A registered timer waits under a new identifier, with all that its registration
/// says, and the buffers are to be passed on once enough timers wait. Nothing else
/// changes.
pub proof fn law_registered_timer_waits<C>(
    actor: &mut TimerActor<C>,
    registration: TimerRegistration<TimeoutEvent, C>,
    now: u64,
    result: (Result<ActorTimerId, String>, bool),
)
    requires
        old(actor)@.next_id < u64::MAX,
        call_ensures(TimerActor::<C>::handle_register_timer, (actor, registration, now), result),
    ensures
        final(actor).spec_config() == old(actor).spec_config(),
        ({
            let id = old(actor)@.next_id;
            let timer = final(actor)@.buffered[id];
            &&& result.0 == Ok::<ActorTimerId, String>(id)
            &&& final(actor)@.buffered.contains_key(id)
            &&& timer.timer_id == id
            &&& timer.registration == registration
            &&& timer.created_at == now
            &&& final(actor)@.buffered.remove(id) == old(actor)@.buffered.remove(id)
            &&& final(actor)@.active == old(actor)@.active
            &&& final(actor)@.cancelling == old(actor)@.cancelling
            &&& final(actor)@.started == old(actor)@.started
            &&& final(actor)@.withdrawn == old(actor)@.withdrawn
            &&& final(actor)@.next_id == id + 1
            &&& final(actor)@.register_requests == old(actor)@.register_requests + 1
            &&& final(actor)@.cancel_requests == old(actor)@.cancel_requests
            &&& result.1 <==> final(actor)@.buffered.dom().len() >= old(
                actor).spec_config().batch_threshold
        }),
{
    let id = old(actor)@.next_id;
    assert(final(actor)@.buffered.remove(id) =~= old(actor)@.buffered.remove(id));
    assert(final(actor)@.buffered.dom() =~= old(actor)@.buffered.dom().insert(id));
}

/// A timer for the validation of a path waits like any other, with that event.
pub proof fn law_path_validation_timer_waits<C>(
    actor: &mut TimerActor<C>,
    connection_id: ConnectionId,
    delay: u64,
    callback: C,
    now: u64,
    result: (Result<ActorTimerId, String>, bool),
)
    requires
        old(actor)@.next_id < u64::MAX,
        call_ensures(TimerActor::<C>::handle_register_path_validation_timer, (actor, connection_id, delay, callback, now), result),
    ensures
        final(actor).spec_config() == old(actor).spec_config(),
        ({
            let id = old(actor)@.next_id;
            let timer = final(actor)@.buffered[id];
            &&& result.0 == Ok::<ActorTimerId, String>(id)
            &&& final(actor)@.buffered.contains_key(id)
            &&& timer.timer_id == id
            &&& timer.registration.connection_id == connection_id
            &&& timer.registration.delay == delay
            &&& timer.registration.timeout_event == TimeoutEvent::PathValidationTimeout
            &&& timer.registration.callback == callback
            &&& timer.created_at == now
            &&& final(actor)@.buffered.remove(id) == old(actor)@.buffered.remove(id)
            &&& final(actor)@.active == old(actor)@.active
            &&& final(actor)@.cancelling == old(actor)@.cancelling
            &&& final(actor)@.started == old(actor)@.started
            &&& final(actor)@.withdrawn == old(actor)@.withdrawn
            &&& final(actor)@.next_id == id + 1
            &&& final(actor)@.register_requests == old(actor)@.register_requests + 1
            &&& final(actor)@.cancel_requests == old(actor)@.cancel_requests
            &&& result.1 <==> final(actor)@.buffered.dom().len() >= old(
                actor).spec_config().batch_threshold
        }),
{
    let id = old(actor)@.next_id;
    assert(final(actor)@.buffered.remove(id) =~= old(actor)@.buffered.remove(id));
    assert(final(actor)@.buffered.dom() =~= old(actor)@.buffered.dom().insert(id));
}

/// A timer for a retransmission waits like any other, with that event.
pub proof fn law_retransmission_timer_waits<C>(
    actor: &mut TimerActor<C>,
    connection_id: ConnectionId,
    delay: u64,
    callback: C,
    now: u64,
    result: (Result<ActorTimerId, String>, bool),
)
    requires
        old(actor)@.next_id < u64::MAX,
        call_ensures(TimerActor::<C>::handle_register_retransmission_timer, (actor, connection_id, delay, callback, now), result),
    ensures
        final(actor).spec_config() == old(actor).spec_config(),
        ({
            let id = old(actor)@.next_id;
            let timer = final(actor)@.buffered[id];
            &&& result.0 == Ok::<ActorTimerId, String>(id)
            &&& final(actor)@.buffered.contains_key(id)
            &&& timer.timer_id == id
            &&& timer.registration.connection_id == connection_id
            &&& timer.registration.delay == delay
            &&& timer.registration.timeout_event == TimeoutEvent::RetransmissionTimeout
            &&& timer.registration.callback == callback
            &&& timer.created_at == now
            &&& final(actor)@.buffered.remove(id) == old(actor)@.buffered.remove(id)
            &&& final(actor)@.active == old(actor)@.active
            &&& final(actor)@.cancelling == old(actor)@.cancelling
            &&& final(actor)@.started == old(actor)@.started
            &&& final(actor)@.withdrawn == old(actor)@.withdrawn
            &&& final(actor)@.next_id == id + 1
            &&& final(actor)@.register_requests == old(actor)@.register_requests + 1
            &&& final(actor)@.cancel_requests == old(actor)@.cancel_requests
            &&& result.1 <==> final(actor)@.buffered.dom().len() >= old(
                actor).spec_config().batch_threshold
        }),
{
    let id = old(actor)@.next_id;
    assert(final(actor)@.buffered.remove(id) =~= old(actor)@.buffered.remove(id));
    assert(final(actor)@.buffered.dom() =~= old(actor)@.buffered.dom().insert(id));
}

/// A timer for the end of a connection waits like any other, with that event.
pub proof fn law_fin_processing_timer_waits<C>(
    actor: &mut TimerActor<C>,
    connection_id: ConnectionId,
    delay: u64,
    callback: C,
    now: u64,
    result: (Result<ActorTimerId, String>, bool),
)
    requires
        old(actor)@.next_id < u64::MAX,
        call_ensures(TimerActor::<C>::handle_register_fin_processing_timer, (actor, connection_id, delay, callback, now), result),
    ensures
        final(actor).spec_config() == old(actor).spec_config(),
        ({
            let id = old(actor)@.next_id;
            let timer = final(actor)@.buffered[id];
            &&& result.0 == Ok::<ActorTimerId, String>(id)
            &&& final(actor)@.buffered.contains_key(id)
            &&& timer.timer_id == id
            &&& timer.registration.connection_id == connection_id
            &&& timer.registration.delay == delay
            &&& timer.registration.timeout_event == TimeoutEvent::ConnectionTimeout
            &&& timer.registration.callback == callback
            &&& timer.created_at == now
            &&& final(actor)@.buffered.remove(id) == old(actor)@.buffered.remove(id)
            &&& final(actor)@.active == old(actor)@.active
            &&& final(actor)@.cancelling == old(actor)@.cancelling
            &&& final(actor)@.started == old(actor)@.started
            &&& final(actor)@.withdrawn == old(actor)@.withdrawn
            &&& final(actor)@.next_id == id + 1
            &&& final(actor)@.register_requests == old(actor)@.register_requests + 1
            &&& final(actor)@.cancel_requests == old(actor)@.cancel_requests
            &&& result.1 <==> final(actor)@.buffered.dom().len() >= old(
                actor).spec_config().batch_threshold
        }),
{
    let id = old(actor)@.next_id;
    assert(final(actor)@.buffered.remove(id) =~= old(actor)@.buffered.remove(id));
    assert(final(actor)@.buffered.dom() =~= old(actor)@.buffered.dom().insert(id));
}

/// A timer for the retransmission of one packet waits like any other. Its event names
/// the packet, and an identifier of its own that no other timer gets.
pub proof fn law_packet_retransmission_timer_waits<C>(
    actor: &mut TimerActor<C>,
    connection_id: ConnectionId,
    sequence_number: u32,
    delay: u64,
    callback: C,
    now: u64,
    result: (Result<ActorTimerId, String>, bool),
)
    requires
        old(actor)@.next_id + 1 < u64::MAX,
        call_ensures(TimerActor::<C>::handle_register_packet_retransmission_timer, (actor, connection_id, sequence_number, delay, callback, now), result),
    ensures
        final(actor).spec_config() == old(actor).spec_config(),
        ({
            let id = (old(actor)@.next_id + 1) as u64;
            let timer = final(actor)@.buffered[id];
            &&& result.0 == Ok::<ActorTimerId, String>(id)
            &&& final(actor)@.buffered.contains_key(id)
            &&& timer.timer_id == id
            &&& timer.registration.connection_id == connection_id
            &&& timer.registration.delay == delay
            &&& timer.registration.timeout_event == (
            TimeoutEvent::PacketRetransmissionTimeout {
                sequence_number,
                timer_id: old(actor)@.next_id,
            })
            &&& timer.registration.callback == callback
            &&& timer.created_at == now
            &&& final(actor)@.buffered.remove(id) == old(actor)@.buffered.remove(id)
            &&& final(actor)@.active == old(actor)@.active
            &&& final(actor)@.cancelling == old(actor)@.cancelling
            &&& final(actor)@.started == old(actor)@.started
            &&& final(actor)@.withdrawn == old(actor)@.withdrawn
            &&& final(actor)@.next_id == id + 1
            &&& final(actor)@.register_requests == old(actor)@.register_requests + 1
            &&& final(actor)@.cancel_requests == old(actor)@.cancel_requests
            &&& result.1 <==> final(actor)@.buffered.dom().len() >= old(
                actor).spec_config().batch_threshold
        }),
{
    let id = (old(actor)@.next_id + 1) as u64;
    assert(final(actor)@.buffered.remove(id) =~= old(actor)@.buffered.remove(id));
    assert(final(actor)@.buffered.dom() =~= old(actor)@.buffered.dom().insert(id));
}

/// A cancellation by identifier succeeds exactly where there is such a timer that is
/// not cancelled yet. A timer that waits is forgotten, one that the task has is marked,
/// and no other timer is touched; the buffers are to be passed on once enough marks wait.
pub proof fn law_cancellation_takes_one_timer<C>(
    actor: &mut TimerActor<C>,
    timer_id: ActorTimerId,
    result: (bool, bool),
    other: ActorTimerId,
)
    requires
        old(actor).wf(),
        call_ensures(TimerActor::<C>::handle_cancel_timer_by_id, (actor, timer_id), result),
    ensures
        final(actor).spec_config() == old(actor).spec_config(),
        ({
            let was = old(actor)@;
            let post = final(actor)@;
            let waits = was.buffered.contains_key(timer_id);
            let marks = !waits && was.active.contains_key(timer_id) && !was.cancelling.contains(
                timer_id,
            );
            &&& result.0 <==> waits || marks
            &&& post.buffered.contains_key(other) <==> was.buffered.contains_key(other) && other
                != timer_id
            &&& post.buffered.contains_key(other) ==> post.buffered[other] == was.buffered[other]
            &&& post.active == was.active
            &&& post.cancelling.contains(other) <==> was.cancelling.contains(other) || (marks && other
                == timer_id)
            &&& post.started == was.started
            &&& post.withdrawn == was.withdrawn
            &&& post.next_id == was.next_id
            &&& post.register_requests == was.register_requests
            &&& post.cancel_requests == was.cancel_requests + (if waits || marks {
                1int
            } else {
                0int
            })
            &&& result.1 <==> marks && post.cancelling.len() >= old(actor).spec_config().batch_threshold
        }),
{
}

/// A second cancellation of the same timer fails and changes nothing.
pub proof fn law_second_cancellation_fails<C>(
    first: &mut TimerActor<C>,
    timer_id: ActorTimerId,
    once: (bool, bool),
    second: &mut TimerActor<C>,
    twice: (bool, bool),
)
    requires
        old(first).wf(),
        call_ensures(TimerActor::<C>::handle_cancel_timer_by_id, (first, timer_id), once),
        *old(second) == *final(first),
        call_ensures(TimerActor::<C>::handle_cancel_timer_by_id, (second, timer_id), twice),
    ensures
        !twice.0,
        !twice.1,
        final(second)@ == old(second)@,
{
}

/// The timers of a connection are those that wait for it and those that the task has
/// for it, each once; those of one event are the ones among them that stand for it.
pub proof fn law_timers_are_found_by_connection_and_event<C>(
    actor: TimerActor<C>,
    connection_id: ConnectionId,
    timeout_event: TimeoutEvent,
    all: Vec<ActorTimerId>,
    some: Vec<ActorTimerId>,
    id: ActorTimerId,
)
    requires
        actor.wf(),
        call_ensures(TimerActor::<C>::timers_of_connection, (&actor, connection_id), all),
        call_ensures(
            TimerActor::<C>::timers_of_type,
            (&actor, connection_id, timeout_event),
            some,
        ),
    ensures
        all@.no_duplicates(),
        some@.no_duplicates(),
        all@.contains(id) <==> {
            ||| actor@.buffered.contains_key(id)
                && actor@.buffered[id].registration.connection_id == connection_id
            ||| actor@.active.contains_key(id) && actor@.active[id].connection_id == connection_id
        },
        some@.contains(id) <==> {
            ||| actor@.buffered.contains_key(id)
                && actor@.buffered[id].registration.connection_id == connection_id
                && actor@.buffered[id].registration.timeout_event == timeout_event
            ||| actor@.active.contains_key(id) && actor@.active[id].connection_id == connection_id
                && actor@.active[id].timeout_event == timeout_event
        },
{
    actor.law_state_is_consistent();
    lemma_parts_are_apart(actor@, id);
    assert(all@.contains(id) <==> all@.to_set().contains(id));
    assert(some@.contains(id) <==> some@.to_set().contains(id));
}

/// No timer both waits and is with the task.
proof fn lemma_parts_are_apart<C>(state: ActorState<C>, id: ActorTimerId)
    requires
        state.consistent(),
    ensures
        !(state.buffered.contains_key(id) && state.active.contains_key(id)),
{
    if state.buffered.contains_key(id) {
        assert(state.buffered.dom().contains(id));
        assert(!state.active.dom().contains(id));
    }
}

/// The cancellation of the timers of a connection names exactly those, each once, and
/// that of the timers for one event exactly those of them that stand for it.
pub proof fn law_cancellations_name_the_timers_meant<C>(
    actor: TimerActor<C>,
    connection_id: ConnectionId,
    timeout_event: TimeoutEvent,
    all: CancelJob,
    some: CancelJob,
    id: ActorTimerId,
)
    requires
        actor.wf(),
        call_ensures(TimerActor::<C>::handle_cancel_all_timers, (&actor, connection_id), all),
        call_ensures(
            TimerActor::<C>::handle_cancel_timer_by_type,
            (&actor, connection_id, timeout_event),
            some,
        ),
    ensures
        all.remaining().no_duplicates() && all.done() == 0,
        some.remaining().no_duplicates() && some.done() == 0,
        all.remaining().contains(id) <==> {
            ||| actor@.buffered.contains_key(id)
                && actor@.buffered[id].registration.connection_id == connection_id
            ||| actor@.active.contains_key(id) && actor@.active[id].connection_id == connection_id
        },
        some.remaining().contains(id) <==> {
            ||| actor@.buffered.contains_key(id)
                && actor@.buffered[id].registration.connection_id == connection_id
                && actor@.buffered[id].registration.timeout_event == timeout_event
            ||| actor@.active.contains_key(id) && actor@.active[id].connection_id == connection_id
                && actor@.active[id].timeout_event == timeout_event
        },
{
    actor.law_state_is_consistent();
    lemma_parts_are_apart(actor@, id);
    assert(all.remaining().contains(id) <==> all.remaining().to_set().contains(id));
    assert(some.remaining().contains(id) <==> some.remaining().to_set().contains(id));
}

/// The command to cancel the timers of a connection that stand for one event goes on to
/// cancel exactly the timers that wait or are with the task, belong to that connection
/// and stand for that event: no timer of the connection that stands for another event,
/// and none of another connection. The command for all timers of a connection goes on
/// to cancel exactly those.
pub proof fn law_cancel_commands_name_the_timers_meant<C>(
    actor: &mut TimerActor<C>,
    command: TimerActorCommand<C>,
    now: u64,
    step: ActorStep<C>,
    id: ActorTimerId,
)
    requires
        old(actor).wf(),
        command is CancelTimer || command is CancelAllTimers,
        call_ensures(TimerActor::<C>::handle_command, (actor, command, now), step),
    ensures
        final(actor).spec_config() == old(actor).spec_config(),
        ({
            let state = old(actor)@;
            &&& final(actor)@ == state
            &&& step matches ActorStep::Go(ActorWork::Cancel(job)) && job.done() == 0
                && job.remaining().no_duplicates() && (job.remaining().contains(id) <==> (
            match command {
                TimerActorCommand::CancelTimer { connection_id, timeout_event } => {
                    ||| state.buffered.contains_key(id)
                        && state.buffered[id].registration.connection_id == connection_id
                        && state.buffered[id].registration.timeout_event == timeout_event
                    ||| state.active.contains_key(id) && state.active[id].connection_id
                        == connection_id && state.active[id].timeout_event == timeout_event
                },
                TimerActorCommand::CancelAllTimers { connection_id } => {
                    ||| state.buffered.contains_key(id)
                        && state.buffered[id].registration.connection_id == connection_id
                    ||| state.active.contains_key(id) && state.active[id].connection_id
                        == connection_id
                },
                _ => false,
            }))
        }),
{
    old(actor).law_state_is_consistent();
    lemma_parts_are_apart(old(actor)@, id);
    if let ActorStep::Go(ActorWork::Cancel(job)) = step {
        assert(job.remaining().contains(id) <==> job.remaining().to_set().contains(id));
    }
}

/// A command to register a timer registers one, with the connection, the delay, the
/// event and the callback that the command says, and is answered with its identifier.
pub proof fn law_register_commands_register_what_they_say<C>(
    actor: &mut TimerActor<C>,
    command: TimerActorCommand<C>,
    now: u64,
    step: ActorStep<C>,
    id: ActorTimerId,
)
    requires
        old(actor)@.next_id + 1 < u64::MAX,
        command is RegisterTimer || command is RegisterPathValidationTimer
            || command is RegisterRetransmissionTimer
            || command is RegisterPacketRetransmissionTimer
            || command is RegisterFinProcessingTimer,
        id == (if command is RegisterPacketRetransmissionTimer {
            (old(actor)@.next_id + 1) as u64
        } else {
            old(actor)@.next_id
        }),
        call_ensures(TimerActor::<C>::handle_command, (actor, command, now), step),
    ensures
        final(actor).spec_config() == old(actor).spec_config(),
        ({
            let post = final(actor)@;
            let timer = post.buffered[id];
            let answer = TimerActorResponse::Registered(Ok(id));
            &&& post.buffered.contains_key(id)
            &&& timer.timer_id == id
            &&& timer.created_at == now
            &&& match command {
                TimerActorCommand::RegisterTimer { registration } => timer.registration
                    == registration,
                TimerActorCommand::RegisterPathValidationTimer {
                    connection_id,
                    path_id,
                    delay,
                    callback,
                } => timer.registration == (TimerRegistration {
                    connection_id,
                    delay,
                    timeout_event: TimeoutEvent::PathValidationTimeout,
                    callback,
                }),
                TimerActorCommand::RegisterRetransmissionTimer {
                    connection_id,
                    packet_id,
                    delay,
                    callback,
                } => timer.registration == (TimerRegistration {
                    connection_id,
                    delay,
                    timeout_event: TimeoutEvent::RetransmissionTimeout,
                    callback,
                }),
                TimerActorCommand::RegisterPacketRetransmissionTimer {
                    connection_id,
                    sequence_number,
                    delay,
                    callback,
                } => timer.registration == (TimerRegistration {
                    connection_id,
                    delay,
                    timeout_event: TimeoutEvent::PacketRetransmissionTimeout {
                        sequence_number,
                        timer_id: old(actor)@.next_id,
                    },
                    callback,
                }),
                TimerActorCommand::RegisterFinProcessingTimer {
                    connection_id,
                    delay,
                    callback,
                } => timer.registration == (TimerRegistration {
                    connection_id,
                    delay,
                    timeout_event: TimeoutEvent::ConnectionTimeout,
                    callback,
                }),
                _ => false,
            }
            &&& post.buffered.remove(id) == old(actor)@.buffered.remove(id)
            &&& post.active == old(actor)@.active
            &&& post.cancelling == old(actor)@.cancelling
            &&& post.next_id == id + 1
            &&& post.buffered.dom().len() >= old(actor).spec_config().batch_threshold ==> step
                == ActorStep::<C>::Flush(ActorWork::Answer(answer))
            &&& post.buffered.dom().len() < old(actor).spec_config().batch_threshold ==> step
                == ActorStep::<C>::Reply(answer)
        }),
{
    assert(final(actor)@.buffered.remove(id) =~= old(actor)@.buffered.remove(id));
    assert(final(actor)@.buffered.dom() =~= old(actor)@.buffered.dom().insert(id));
}

/// The other commands do what they say: a cancellation by identifier takes one timer,
/// batches go on to what they name, a query and the figures only look, a flush passes
/// the buffers on, and the command to end ends.
pub proof fn law_other_commands_do_what_they_say<C>(
    actor: &mut TimerActor<C>,
    command: TimerActorCommand<C>,
    now: u64,
    step: ActorStep<C>,
    other: ActorTimerId,
)
    requires
        old(actor).wf(),
        call_ensures(TimerActor::<C>::handle_command, (actor, command, now), step),
    ensures
        final(actor).spec_config() == old(actor).spec_config(),
        ({
            let was = old(actor)@;
            let post = final(actor)@;
            match command {
                TimerActorCommand::CancelTimerById { timer_id } => {
                    let waits = was.buffered.contains_key(timer_id);
                    let marks = !waits && was.active.contains_key(timer_id)
                        && !was.cancelling.contains(timer_id);
                    let answer = TimerActorResponse::Cancelled(waits || marks);
                    &&& step == (if marks && post.cancelling.len() >= old(
                        actor).spec_config().batch_threshold {
                        ActorStep::<C>::Flush(ActorWork::Answer(answer))
                    } else {
                        ActorStep::<C>::Reply(answer)
                    })
                    &&& post.buffered.contains_key(other) <==> was.buffered.contains_key(other)
                        && other != timer_id
                    &&& post.active == was.active
                    &&& post.cancelling.contains(other) <==> was.cancelling.contains(other) || (marks
                        && other == timer_id)
                },
                TimerActorCommand::BatchRegisterTimers { registrations } => post == was && (
                step matches ActorStep::Go(ActorWork::Register(job)) && job.remaining()
                    == registrations@ && job.done().len() == 0),
                TimerActorCommand::BatchCancelTimersByIds { timer_ids } => post == was && (
                step matches ActorStep::Go(ActorWork::Cancel(job)) && job.remaining() == timer_ids@
                    && job.done() == 0),
                TimerActorCommand::BatchCancelTimers { entries } => post == was && (
                step matches ActorStep::Go(ActorWork::CancelTypes(job)) && job.spec_types()
                    == entries@ && job.spec_current().remaining().len() == 0
                    && job.spec_current().done() == 0 && job.spec_total() == 0),
                TimerActorCommand::FlushBuffers => post == was && step == ActorStep::<C>::Flush(
                    ActorWork::Answer(TimerActorResponse::Flushed),
                ),
                TimerActorCommand::GetStats => post == was && (step matches ActorStep::Reply(
                    TimerActorResponse::Stats(stats),
                ) && stats.total_register_requests == was.register_requests as u64
                    && stats.total_cancel_requests == was.cancel_requests as u64
                    && stats.next_timer_id == was.next_id),
                TimerActorCommand::QueryTimer { timer_id } => post == was && (step matches ActorStep::Reply(
                    TimerActorResponse::Timer(info),
                ) && (info is Some <==> was.buffered.contains_key(timer_id)
                    || was.active.contains_key(timer_id)) && (info matches Some(known)
                    ==> known.timer_id == timer_id && known.in_buffer == was.buffered.contains_key(
                    timer_id,
                ))),
                TimerActorCommand::Shutdown => post == was && step is Stop,
                _ => true,
            }
        }),
{
}

/// What is known of a timer is what it was registered with while it waits; of one that
/// the task has, its connection, its event and its identifier there.
pub proof fn law_query_tells_what_is_known<C>(
    actor: TimerActor<C>,
    timer_id: ActorTimerId,
    now: u64,
    info: Option<TimerInfo>,
)
    requires
        call_ensures(TimerActor::<C>::query_timer_info, (&actor, timer_id, now), info),
    ensures
        actor@.buffered.contains_key(timer_id) ==> info == Some(
            TimerInfo {
                timer_id,
                connection_id: actor@.buffered[timer_id].registration.connection_id,
                timeout_event: actor@.buffered[timer_id].registration.timeout_event,
                delay: actor@.buffered[timer_id].registration.delay,
                created_at: actor@.buffered[timer_id].created_at,
                in_buffer: true,
                entry_id: None,
            },
        ),
        !actor@.buffered.contains_key(timer_id) && actor@.active.contains_key(timer_id) ==> (
        info matches Some(known) && known.timer_id == timer_id && known.connection_id
            == actor@.active[timer_id].connection_id && known.timeout_event
            == actor@.active[timer_id].timeout_event && !known.in_buffer && known.entry_id == Some(
            actor@.active[timer_id].entry_id,
        )),
        !actor@.buffered.contains_key(timer_id) && !actor@.active.contains_key(timer_id) ==> info
            is None,
{
}

/// The figures are those of the state.
pub proof fn law_figures_count_what_is_there<C>(actor: TimerActor<C>, stats: TimerActorStats)
    requires
        call_ensures(TimerActor::<C>::get_current_stats, (&actor,), stats),
    ensures
        stats.register_buffer_size == actor@.buffered.dom().len(),
        stats.cancel_buffer_size == actor@.cancelling.len(),
        stats.active_timer_count == actor@.active.dom().len(),
        stats.total_register_requests == actor@.register_requests as u64,
        stats.total_cancel_requests == actor@.cancel_requests as u64,
        stats.auto_flush_count == actor@.auto_flushes as u64,
        stats.optimized_operations == actor@.optimized as u64,
        stats.next_timer_id == actor@.next_id,
{
}

/// The buffers are passed on by time exactly where something waits and the last flush
/// lies the set interval back.
pub proof fn law_flushes_when_the_interval_is_over<C>(
    actor: TimerActor<C>,
    now: u64,
    due: bool,
    waits: bool,
)
    requires
        actor@.last_flush <= now,
        call_ensures(TimerActor::<C>::should_auto_flush, (&actor, now), due),
        call_ensures(TimerActor::<C>::has_buffered, (&actor,), waits),
    ensures
        waits <==> actor@.buffered.dom().len() > 0 || actor@.cancelling.len() > 0,
        due <==> waits && now - actor@.last_flush >= actor.spec_config().flush_interval,
{
}

/// A flush is noted with its time, and one that was due by time is counted; neither
/// touches a timer.
pub proof fn law_flushes_are_noted<C>(
    actor: &mut TimerActor<C>,
    now: u64,
    counted: &mut TimerActor<C>,
)
    requires
        call_ensures(TimerActor::<C>::finish_flush, (actor, now), ()),
        call_ensures(TimerActor::<C>::note_auto_flush, (counted,), ()),
    ensures
        final(actor).spec_config() == old(actor).spec_config(),
        final(actor)@.last_flush == now,
        final(actor)@.buffered == old(actor)@.buffered,
        final(actor)@.active == old(actor)@.active,
        final(actor)@.cancelling == old(actor)@.cancelling,
        final(actor)@.started == old(actor)@.started,
        final(actor)@.withdrawn == old(actor)@.withdrawn,
        final(counted).spec_config() == old(counted).spec_config(),
        final(counted)@.auto_flushes == old(counted)@.auto_flushes + 1,
        final(counted)@.buffered == old(counted)@.buffered,
        final(counted)@.active == old(counted)@.active,
        final(counted)@.cancelling == old(counted)@.cancelling,
        final(counted)@.last_flush == old(counted)@.last_flush,
{
}

/// A new actor has no timers, counts from one, and flushes as it is told to: by default
/// at four thousand and ninety-six entries, and every tenth of a second.
pub proof fn law_actor_starts_empty<C>(
    config: TimerActorConfig,
    now: u64,
    actor: TimerActor<C>,
    default: TimerActorConfig,
)
    requires
        call_ensures(TimerActor::<C>::new, (config, now), actor),
        call_ensures(TimerActorConfig::default, (), default),
    ensures
        forall|id: ActorTimerId| !#[trigger] actor@.buffered.contains_key(id),
        forall|id: ActorTimerId| !#[trigger] actor@.active.contains_key(id),
        forall|id: ActorTimerId| !#[trigger] actor@.cancelling.contains(id),
        actor@.started.len() == 0 && actor@.withdrawn.len() == 0,
        actor@.next_id == 1,
        actor@.register_requests == 0 && actor@.cancel_requests == 0,
        actor@.last_flush == now,
        actor.spec_config() == config,
        default.batch_threshold == 4096,
        default.flush_interval == 100_000_000,
{
}

/// What cancelling timers one by one changes: those that wait are gone, those that the
/// task has are marked, and no other timer is touched.
proof fn lemma_cancelled_all<C>(state: ActorState<C>, ids: Seq<ActorTimerId>)
    requires
        state.consistent(),
    ensures
        ({
            let after = state.cancelled_all(ids);
            &&& after.consistent()
            &&& forall|x: ActorTimerId| #[trigger]
                after.buffered.contains_key(x) <==> state.buffered.contains_key(x) && !ids.contains(
                    x,
                )
            &&& forall|x: ActorTimerId| #[trigger]
                after.buffered.contains_key(x) ==> after.buffered[x] == state.buffered[x]
            &&& forall|x: ActorTimerId| #[trigger]
                after.cancelling.contains(x) <==> state.cancelling.contains(x) || (ids.contains(x)
                    && state.active.contains_key(x))
            &&& after.active == state.active
            &&& after.started == state.started
            &&& after.withdrawn == state.withdrawn
            &&& after.next_id == state.next_id
            &&& after.register_requests == state.register_requests
        }),
    decreases ids.len(),
{
    if ids.len() > 0 {
        let front = ids.drop_last();
        let last = ids.last();
        lemma_cancelled_all(state, front);
        let middle = state.cancelled_all(front);
        state::lemma_cancelled(middle, last);
        lemma_parts_are_apart(middle, last);
        lemma_parts_are_apart(state, last);
        assert(front.push(last) =~= ids);
        assert forall|x: ActorTimerId| #[trigger] ids.contains(x) <==> front.contains(x) || x
            == last by {
            vstd::seq_lib::lemma_seq_contains_after_push(front, last, x);
        }
    }
}

/// Where no cancellation fills the buffer, it stays below the threshold or as it was.
proof fn lemma_no_fill<C>(state: ActorState<C>, ids: Seq<ActorTimerId>, threshold: usize)
    requires
        forall|j: int|
            0 <= j < ids.len() ==> !(#[trigger] state.cancelled_all(ids.take(j)).cancel_fills(
                ids[j],
                threshold,
            )),
    ensures
        ({
            let after = state.cancelled_all(ids);
            after.cancelling == state.cancelling || after.cancelling.len() < threshold
        }),
    decreases ids.len(),
{
    if ids.len() > 0 {
        let front = ids.drop_last();
        let last = ids.len() - 1;
        assert forall|j: int| 0 <= j < front.len() implies !(#[trigger] state.cancelled_all(
            front.take(j),
        ).cancel_fills(front[j], threshold)) by {
            assert(front.take(j) =~= ids.take(j));
            assert(front[j] == ids[j]);
        }
        lemma_no_fill(state, front, threshold);
        assert(ids.take(last) =~= front);
        assert(!state.cancelled_all(ids.take(last)).cancel_fills(ids[last], threshold));
    }
}

/// Going on with cancellations takes the next ones of those that are left, in their
/// order: of these, the timers that wait are forgotten and those that the task has are
/// marked, and no other timer is touched. Each timer counts once. The buffers are to be
/// passed on where enough marks wait; otherwise all are done.
pub proof fn law_cancellations_take_the_named_timers<C>(
    actor: &mut TimerActor<C>,
    job: &mut CancelJob,
    flush: bool,
    x: ActorTimerId,
)
    requires
        old(actor).wf(),
        call_ensures(TimerActor::<C>::run_cancellations, (actor, job), flush),
    ensures
        final(actor).spec_config() == old(actor).spec_config(),
        ({
            let was = old(actor)@;
            let post = final(actor)@;
            let ids = old(job).remaining();
            let n = ids.len() - final(job).remaining().len();
            let done = ids.take(n);
            let threshold = old(actor).spec_config().batch_threshold;
            &&& 0 <= n <= ids.len()
            &&& final(job).remaining() == ids.skip(n)
            &&& post.buffered.contains_key(x) <==> was.buffered.contains_key(x) && !done.contains(x)
            &&& post.buffered.contains_key(x) ==> post.buffered[x] == was.buffered[x]
            &&& post.cancelling.contains(x) <==> was.cancelling.contains(x) || (done.contains(x)
                && was.active.contains_key(x))
            &&& post.active == was.active
            &&& post.next_id == was.next_id
            &&& final(job).done() == old(job).done() + done.to_set().filter(
                |id: ActorTimerId|
                    was.buffered.contains_key(id) || (was.active.contains_key(id)
                        && !was.cancelling.contains(id)),
            ).len()
            &&& flush ==> n > 0 && post.cancelling.len() >= threshold
            &&& !flush ==> n == ids.len() && (post.cancelling == was.cancelling
                || post.cancelling.len() < threshold)
        }),
{
    lemma_cancellations(
        old(actor)@,
        old(actor).spec_config(),
        *old(job),
        final(actor)@,
        *final(job),
        flush,
        *old(actor),
        x,
    );
}

proof fn lemma_cancellations<C>(
    was: ActorState<C>,
    config: TimerActorConfig,
    job: CancelJob,
    post: ActorState<C>,
    rest: CancelJob,
    flush: bool,
    actor: TimerActor<C>,
    x: ActorTimerId,
)
    requires
        actor.wf(),
        was == actor@,
        crate::timer::actor::cancelled_by(was, config, job, post, rest, flush),
    ensures
        ({
            let ids = job.remaining();
            let n = ids.len() - rest.remaining().len();
            let done = ids.take(n);
            &&& 0 <= n <= ids.len()
            &&& rest.remaining() == ids.skip(n)
            &&& post.buffered.contains_key(x) <==> was.buffered.contains_key(x) && !done.contains(x)
            &&& post.buffered.contains_key(x) ==> post.buffered[x] == was.buffered[x]
            &&& post.cancelling.contains(x) <==> was.cancelling.contains(x) || (done.contains(x)
                && was.active.contains_key(x))
            &&& post.active == was.active
            &&& post.next_id == was.next_id
            &&& post.consistent()
            &&& rest.done() == job.done() + done.to_set().filter(
                |id: ActorTimerId|
                    was.buffered.contains_key(id) || (was.active.contains_key(id)
                        && !was.cancelling.contains(id)),
            ).len()
            &&& flush ==> n > 0 && post.cancelling.len() >= config.batch_threshold
            &&& !flush ==> n == ids.len() && (post.cancelling == was.cancelling
                || post.cancelling.len() < config.batch_threshold)
        }),
{
    actor.law_state_is_consistent();
    let ids = job.remaining();
    let n = ids.len() - rest.remaining().len();
    let done = ids.take(n);
    lemma_cancelled_all(was, done);
    state::law_each_timer_counts_once(was, done);
    let open = |id: ActorTimerId| was.cancellable(id);
    let plain = |id: ActorTimerId|
        was.buffered.contains_key(id) || (was.active.contains_key(id) && !was.cancelling.contains(
            id,
        ));
    assert(open =~= plain);
    if flush {
        assert(done.drop_last() =~= ids.take(n - 1));
        assert(done.last() == ids[n - 1]);
    } else {
        assert forall|j: int| 0 <= j < done.len() implies !(#[trigger] was.cancelled_all(
            done.take(j),
        ).cancel_fills(done[j], config.batch_threshold)) by {
            assert(done.take(j) =~= ids.take(j));
            if j < n - 1 {
                assert(!was.cancelled_all(ids.take(j)).cancel_fills(
                    ids[j],
                    config.batch_threshold,
                ));
            }
        }
        lemma_no_fill(was, done, config.batch_threshold);
    }
}

/// What registering timers one by one changes: each waits under its own identifier, and
/// the others are as before.
proof fn lemma_registered_all<C>(
    state: ActorState<C>,
    registrations: Seq<TimerRegistration<TimeoutEvent, C>>,
    now: u64,
)
    requires
        state.next_id + registrations.len() <= u64::MAX,
    ensures
        ({
            let after = state.registered_all(registrations, now);
            let first = state.next_id;
            let n = registrations.len();
            &&& after.next_id == first + n
            &&& forall|id: ActorTimerId| #[trigger]
                after.buffered.contains_key(id) <==> state.buffered.contains_key(id) || first <= id
                    < first + n
            &&& forall|id: ActorTimerId| #[trigger]
                after.buffered.contains_key(id) ==> after.buffered[id] == (if first <= id < first
                    + n {
                    BufferedTimer {
                        timer_id: id,
                        registration: registrations[id - first],
                        created_at: now,
                    }
                } else {
                    state.buffered[id]
                })
            &&& after.active == state.active
            &&& after.cancelling == state.cancelling
            &&& after.started == state.started
            &&& after.withdrawn == state.withdrawn
            &&& after.register_requests == state.register_requests + n
            &&& state.buffered.dom().finite() ==> after.buffered.dom().finite()
        }),
    decreases registrations.len(),
{
    if registrations.len() > 0 {
        lemma_registered_all(state, registrations.drop_last(), now);
    }
}

/// What comes of going on with registrations, item by item.
#[verifier::spinoff_prover]
proof fn lemma_registrations<C>(
    was: ActorState<C>,
    config: TimerActorConfig,
    now: u64,
    job: RegisterJob<C>,
    post: ActorState<C>,
    rest: RegisterJob<C>,
    flush: bool,
)
    requires
        was.next_id + job.remaining().len() <= u64::MAX,
        was.buffered.dom().finite(),
        crate::timer::actor::registered_by(was, config, now, job, post, rest, flush),
    ensures
        rest.remaining().len() <= job.remaining().len(),
        post.next_id == was.next_id + job.remaining().len() - rest.remaining().len(),
        rest.remaining() == job.remaining().skip(post.next_id - was.next_id),
        rest.done().len() == job.done().len() + post.next_id - was.next_id,
        job.done().is_prefix_of(rest.done()),
        forall|i: int|
            job.done().len() <= i < rest.done().len() ==> #[trigger] rest.done()[i] == was.next_id
                + i - job.done().len(),
        forall|id: ActorTimerId| #[trigger]
            post.buffered.contains_key(id) <==> was.buffered.contains_key(id) || was.next_id <= id
                < post.next_id,
        forall|id: ActorTimerId|
            was.next_id <= id < post.next_id ==> (#[trigger] post.buffered[id]).registration
                == job.remaining()[id - was.next_id] && post.buffered[id].created_at == now
                && post.buffered[id].timer_id == id,
        forall|id: ActorTimerId|
            !(was.next_id <= id < post.next_id) && was.buffered.contains_key(id)
                ==> #[trigger] post.buffered[id] == was.buffered[id],
        post.active == was.active,
        post.cancelling == was.cancelling,
        flush ==> post.next_id > was.next_id && post.buffered.dom().len()
            >= config.batch_threshold,
        post.next_id > was.next_id + 1 ==> post.buffered.dom().len() <= config.batch_threshold,
        !flush ==> rest.remaining().len() == 0 && (post.next_id == was.next_id
            || post.buffered.dom().len() < config.batch_threshold),
{
    let all = job.remaining();
    let n = all.len() - rest.remaining().len();
    let done = all.take(n);
    lemma_registered_all(was, done, now);
    assert forall|id: ActorTimerId| was.next_id <= id < post.next_id implies (
    #[trigger] post.buffered[id]).registration == all[id - was.next_id]
        && post.buffered[id].created_at == now && post.buffered[id].timer_id == id by {
        assert(post.buffered.contains_key(id));
    }
    assert forall|id: ActorTimerId|
        !(was.next_id <= id < post.next_id) && was.buffered.contains_key(
            id,
        ) implies #[trigger] post.buffered[id] == was.buffered[id] by {
        assert(post.buffered.contains_key(id));
    }
    if n > 0 {
        assert(done.drop_last() =~= all.take(n - 1));
        let before = was.registered_all(all.take(n - 1), now);
        assert(post == before.registered(done.last(), now));
        assert(post.buffered.dom() =~= before.buffered.dom().insert(before.next_id));
        assert(before.register_fills(config.batch_threshold) == (post.buffered.dom().len()
            >= config.batch_threshold));
        if n > 1 {
            lemma_registered_all(was, all.take(n - 1), now);
            let earlier = was.registered_all(all.take(n - 2), now);
            assert(all.take(n - 1).drop_last() =~= all.take(n - 2));
            assert(before == earlier.registered(all.take(n - 1).last(), now));
            assert(!earlier.register_fills(config.batch_threshold));
            assert(before.buffered.dom() =~= earlier.buffered.dom().insert(earlier.next_id));
        }
    }
}

/// Going on with registrations makes the next ones of those that are left, in their
/// order: each timer waits under its own identifier, with all that its registration
/// says, and the others are as before. The buffers are to be passed on where enough
/// timers wait; otherwise all are done.
pub proof fn law_registrations_are_made_in_order<C>(
    actor: &mut TimerActor<C>,
    job: &mut RegisterJob<C>,
    now: u64,
    flush: bool,
    id: ActorTimerId,
)
    requires
        old(actor).wf(),
        old(actor)@.next_id + old(job).remaining().len() <= u64::MAX,
        call_ensures(TimerActor::<C>::run_registrations, (actor, job, now), flush),
    ensures
        final(actor).spec_config() == old(actor).spec_config(),
        final(job).done().len() == old(job).done().len() + final(actor)@.next_id - old(
            actor)@.next_id,
        old(job).done().is_prefix_of(final(job).done()),
        forall|i: int|
            old(job).done().len() <= i < final(job).done().len() ==> #[trigger] final(
                job).done()[i] == old(actor)@.next_id + i - old(job).done().len(),
        ({
            let was = old(actor)@;
            let post = final(actor)@;
            let all = old(job).remaining();
            let n = all.len() - final(job).remaining().len();
            let first = was.next_id;
            &&& 0 <= n <= all.len()
            &&& final(job).remaining() == all.skip(n)
            &&& post.buffered.contains_key(id) <==> was.buffered.contains_key(id) || first <= id
                < first + n
            &&& first <= id < first + n ==> post.buffered[id].registration == all[id - first]
                && post.buffered[id].created_at == now && post.buffered[id].timer_id == id
            &&& !(first <= id < first + n) && was.buffered.contains_key(id) ==> post.buffered[id]
                == was.buffered[id]
            &&& post.active == was.active
            &&& post.cancelling == was.cancelling
            &&& post.next_id == first + n
            &&& flush ==> n > 0 && post.buffered.dom().len() >= old(
                actor).spec_config().batch_threshold
            &&& n > 1 ==> post.buffered.dom().len() <= old(actor).spec_config().batch_threshold
            &&& !flush ==> n == all.len() && (n == 0 || post.buffered.dom().len() < old(
                actor).spec_config().batch_threshold)
        }),
{
    old(actor).law_state_is_consistent();
    lemma_registrations(
        old(actor)@,
        old(actor).spec_config(),
        now,
        *old(job),
        final(actor)@,
        *final(job),
        flush,
    );
}

/// Going on with a command does as the functions for it do. A list of timers to cancel
/// is answered with the number of timers that were cancelled, or goes on with the rest
/// after a flush; so do registrations, which are answered with their identifiers.
pub proof fn law_work_on_cancellations_goes_on<C>(
    actor: &mut TimerActor<C>,
    job: CancelJob,
    now: u64,
    step: ActorStep<C>,
    x: ActorTimerId,
)
    requires
        old(actor).wf(),
        call_ensures(TimerActor::<C>::resume, (actor, ActorWork::Cancel(job), now), step),
    ensures
        final(actor).spec_config() == old(actor).spec_config(),
        ({
            let was = old(actor)@;
            let post = final(actor)@;
            let ids = job.remaining();
            let counts = |id: ActorTimerId|
                was.buffered.contains_key(id) || (was.active.contains_key(id)
                    && !was.cancelling.contains(id));
            match step {
                ActorStep::Reply(TimerActorResponse::CancelledCount(count)) => {
                    &&& count == job.done() + ids.to_set().filter(counts).len()
                    &&& post.buffered.contains_key(x) <==> was.buffered.contains_key(x)
                        && !ids.contains(x)
                    &&& post.cancelling.contains(x) <==> was.cancelling.contains(x) || (ids.contains(
                        x,
                    ) && was.active.contains_key(x))
                    &&& post.active == was.active
                },
                ActorStep::Flush(ActorWork::Cancel(rest)) => {
                    let n = ids.len() - rest.remaining().len();
                    &&& 0 < n <= ids.len()
                    &&& rest.remaining() == ids.skip(n)
                    &&& rest.done() == job.done() + ids.take(n).to_set().filter(counts).len()
                    &&& post.buffered.contains_key(x) <==> was.buffered.contains_key(x)
                        && !ids.take(n).contains(x)
                    &&& post.cancelling.contains(x) <==> was.cancelling.contains(x) || (ids.take(
                        n,
                    ).contains(x) && was.active.contains_key(x))
                    &&& post.active == was.active
                    &&& post.cancelling.len() >= old(actor).spec_config().batch_threshold
                },
                _ => false,
            }
        }),
{
    let was = old(actor)@;
    let post = final(actor)@;
    let config = old(actor).spec_config();
    let ids = job.remaining();
    match step {
        ActorStep::Flush(ActorWork::Cancel(rest)) => {
            lemma_cancellations(was, config, job, post, rest, true, *old(actor), x);
        },
        ActorStep::Reply(TimerActorResponse::CancelledCount(count)) => {
            let rest = choose|rest: CancelJob| #[trigger]
                crate::timer::actor::cancelled_by(was, config, job, post, rest, false) && count
                    == rest.done();
            lemma_cancellations(was, config, job, post, rest, false, *old(actor), x);
            assert(ids.take(ids.len() as int) =~= ids);
        },
        _ => {},
    }
}

/// Going on with registrations, as a command: the answer names the timers in the order
/// of their registrations, and each waits with what its registration says.
pub proof fn law_work_on_registrations_goes_on<C>(
    actor: &mut TimerActor<C>,
    job: RegisterJob<C>,
    now: u64,
    step: ActorStep<C>,
    id: ActorTimerId,
)
    requires
        old(actor).wf(),
        old(actor)@.next_id + job.remaining().len() <= u64::MAX,
        call_ensures(TimerActor::<C>::resume, (actor, ActorWork::Register(job), now), step),
    ensures
        final(actor).spec_config() == old(actor).spec_config(),
        step matches ActorStep::Reply(TimerActorResponse::BatchRegistered(Ok(ids)))
            ==> job.done().is_prefix_of(ids@) && ids@.len() == job.done().len()
            + job.remaining().len() && forall|i: int|
            job.done().len() <= i < ids@.len() ==> #[trigger] ids@[i] == old(actor)@.next_id + i
                - job.done().len(),
        step matches ActorStep::Flush(ActorWork::Register(rest)) ==> job.done().is_prefix_of(
            rest.done(),
        ) && rest.done().len() + rest.remaining().len() == job.done().len() + job.remaining().len()
            && rest.remaining() == job.remaining().skip(final(actor)@.next_id - old(actor)@.next_id),
        ({
            let was = old(actor)@;
            let post = final(actor)@;
            let all = job.remaining();
            let first = was.next_id;
            let n = post.next_id - first;
            &&& 0 <= n <= all.len()
            &&& post.buffered.contains_key(id) <==> was.buffered.contains_key(id) || first <= id
                < first + n
            &&& first <= id < first + n ==> post.buffered[id].registration == all[id - first]
            &&& post.active == was.active
            &&& match step {
                ActorStep::Reply(TimerActorResponse::BatchRegistered(Ok(ids))) => n == all.len(),
                ActorStep::Flush(ActorWork::Register(rest)) => post.buffered.dom().len() >= old(actor).spec_config().batch_threshold,
                _ => false,
            }
        }),
{
    let was = old(actor)@;
    let post = final(actor)@;
    let config = old(actor).spec_config();
    old(actor).law_state_is_consistent();
    match step {
        ActorStep::Flush(ActorWork::Register(rest)) => {
            lemma_registrations(was, config, now, job, post, rest, true);
        },
        ActorStep::Reply(TimerActorResponse::BatchRegistered(Ok(ids))) => {
            let rest = choose|rest: RegisterJob<C>| #[trigger]
                crate::timer::actor::registered_by(was, config, now, job, post, rest, false) && ids@
                    == rest.done();
            lemma_registrations(was, config, now, job, post, rest, false);
        },
        _ => {},
    }
}

/// Going on with pairs of a connection and an event: once the timers of the present pair
/// are cancelled, those of the next pair are named, exactly the timers of that connection
/// that stand for that event, and the counts add up to the answer.
pub proof fn law_work_on_pairs_goes_on<C>(
    actor: &mut TimerActor<C>,
    work: ActorWork<C>,
    now: u64,
    step: ActorStep<C>,
    id: ActorTimerId,
)
    requires
        old(actor).wf(),
        work is CancelTypes,
        call_ensures(TimerActor::<C>::resume, (actor, work, now), step),
    ensures
        final(actor).spec_config() == old(actor).spec_config(),
        work matches ActorWork::CancelTypes(job) && ({
            let was = old(actor)@;
            let post = final(actor)@;
            let ids = job.spec_current().remaining();
            let pairs = job.spec_types();
            let counted = job.spec_current().done() + ids.to_set().filter(
                |id: ActorTimerId|
                    was.buffered.contains_key(id) || (was.active.contains_key(id)
                        && !was.cancelling.contains(id)),
            ).len();
            match step {
                ActorStep::Reply(TimerActorResponse::CancelledCount(count)) => pairs.len() == 0
                    && count == job.spec_total() + counted,
                ActorStep::Go(ActorWork::CancelTypes(rest)) => {
                    &&& pairs.len() > 0
                    &&& rest.spec_types() == pairs.skip(1)
                    &&& rest.spec_total() == job.spec_total() + counted
                    &&& rest.spec_current().done() == 0
                    &&& rest.spec_current().remaining().no_duplicates()
                    &&& rest.spec_current().remaining().contains(id) <==> {
                        ||| post.buffered.contains_key(id)
                            && post.buffered[id].registration.connection_id == pairs[0].0
                            && post.buffered[id].registration.timeout_event == pairs[0].1
                        ||| post.active.contains_key(id) && post.active[id].connection_id == pairs[0].0
                            && post.active[id].timeout_event == pairs[0].1
                    }
                },
                ActorStep::Flush(ActorWork::CancelTypes(rest)) => {
                    let n = ids.len() - rest.spec_current().remaining().len();
                    &&& rest.spec_types() == pairs
                    &&& rest.spec_total() == job.spec_total()
                    &&& 0 < n <= ids.len()
                    &&& rest.spec_current().remaining() == ids.skip(n)
                },
                _ => false,
            }
        }),
{
    let was = old(actor)@;
    let post = final(actor)@;
    let config = old(actor).spec_config();
    if let ActorWork::CancelTypes(job) = work {
        let current = job.spec_current();
        let ids = current.remaining();
        match step {
            ActorStep::Flush(ActorWork::CancelTypes(rest)) => {
                lemma_cancellations(
                    was,
                    config,
                    current,
                    post,
                    rest.spec_current(),
                    true,
                    *old(actor),
                    id,
                );
            },
            ActorStep::Reply(TimerActorResponse::CancelledCount(count)) => {
                let done = choose|done: CancelJob| #[trigger]
                    crate::timer::actor::cancelled_by(was, config, current, post, done, false)
                        && count == job.spec_total() + done.done();
                lemma_cancellations(was, config, current, post, done, false, *old(actor), id);
                assert(ids.take(ids.len() as int) =~= ids);
            },
            ActorStep::Go(ActorWork::CancelTypes(rest)) => {
                let done = choose|done: CancelJob| #[trigger]
                    crate::timer::actor::cancelled_by(was, config, current, post, done, false)
                        && rest.spec_total() == job.spec_total() + done.done();
                lemma_cancellations(was, config, current, post, done, false, *old(actor), id);
                assert(ids.take(ids.len() as int) =~= ids);
                lemma_parts_are_apart(post, id);
                let next = rest.spec_current().remaining();
                assert(next.contains(id) <==> next.to_set().contains(id));
            },
            _ => {},
        }
    }
}

/// An answer that waited for a flush is given unchanged.
pub proof fn law_waiting_answers_are_given<C>(
    actor: &mut TimerActor<C>,
    response: TimerActorResponse,
    now: u64,
    step: ActorStep<C>,
)
    requires
        call_ensures(TimerActor::<C>::resume, (actor, ActorWork::Answer(response), now), step),
    ensures
        final(actor).spec_config() == old(actor).spec_config(),
        final(actor)@ == old(actor)@,
        step == ActorStep::<C>::Reply(response),
{
}

/// The registrations that are passed on are those of all timers that wait, each once
/// and unchanged, in the order in which the timers are noted as passed on. None waits
/// afterwards, and where none waited nothing is passed on.
pub proof fn law_flush_passes_on_what_waits<C>(
    actor: &mut TimerActor<C>,
    batch: Option<BatchTimerRegistration<TimeoutEvent, C>>,
)
    requires
        old(actor).wf(),
        old(actor)@.started.len() == 0,
        call_ensures(TimerActor::<C>::begin_register_flush, (actor,), batch),
    ensures
        final(actor).spec_config() == old(actor).spec_config(),
        ({
            let was = old(actor)@;
            let post = final(actor)@;
            &&& batch is None <==> was.buffered.dom().len() == 0
            &&& batch is None ==> post == was
            &&& batch matches Some(passed) ==> {
                &&& forall|id: ActorTimerId| !#[trigger] post.buffered.contains_key(id)
                &&& post.active == was.active
                &&& post.cancelling == was.cancelling
                &&& post.next_id == was.next_id
                &&& passed.registrations@.len() == post.started.len() == was.buffered.dom().len()
                &&& forall|i: int|
                    0 <= i < post.started.len() ==> {
                        let timer = #[trigger] post.started[i];
                        &&& was.buffered.contains_key(timer.timer_id)
                        &&& passed.registrations@[i] == was.buffered[timer.timer_id].registration
                        &&& timer.connection_id == passed.registrations@[i].connection_id
                        &&& timer.timeout_event == passed.registrations@[i].timeout_event
                    }
                &&& forall|id: ActorTimerId| #[trigger]
                    was.buffered.contains_key(id) ==> exists|i: int|
                        0 <= i < post.started.len() && (#[trigger] post.started[i]).timer_id == id
            }
        }),
{
}

/// Once the task has taken a batch, each timer of it is with the task, under the entry
/// that the task gave for its place; the timers that were with the task before are still
/// there as they were. Where the task was not reached, none comes to it.
pub proof fn law_answered_timers_are_with_the_task<C>(
    actor: &mut TimerActor<C>,
    result: Result<BatchTimerResult<TimerHandle>, TimerError>,
    id: ActorTimerId,
)
    requires
        old(actor).wf(),
        result matches Ok(batch) ==> batch.successes@.len() >= old(actor)@.started.len(),
        call_ensures(TimerActor::<C>::complete_register_flush, (actor, result), ()),
    ensures
        final(actor).spec_config() == old(actor).spec_config(),
        ({
            let was = old(actor)@;
            let post = final(actor)@;
            &&& post.started.len() == 0
            &&& post.buffered == was.buffered
            &&& post.cancelling == was.cancelling
            &&& post.next_id == was.next_id
            &&& result is Err ==> post.active == was.active
            &&& result matches Ok(batch) ==> {
                &&& forall|i: int|
                    0 <= i < was.started.len() ==> {
                        let timer = #[trigger] was.started[i];
                        &&& post.active.contains_key(timer.timer_id)
                        &&& post.active[timer.timer_id].entry_id == batch.successes@[i].entry_id
                        &&& post.active[timer.timer_id].connection_id == timer.connection_id
                        &&& post.active[timer.timer_id].timeout_event == timer.timeout_event
                    }
                &&& was.active.contains_key(id) ==> post.active.contains_key(id) && post.active[id]
                    == was.active[id]
                &&& post.active.contains_key(id) ==> was.active.contains_key(id) || exists|i: int|
                    0 <= i < was.started.len() && (#[trigger] was.started[i]).timer_id == id
            }
        }),
{
    let was = old(actor)@;
    old(actor).law_state_is_consistent();
    if let Ok(batch) = result {
        let entries = batch.successes@.map_values(|handle: TimerHandle| handle.entry_id);
        state::law_accepted_batch_is_active(was, entries);
        lemma_answers_come_from_the_batch(was.active, was.started, entries, id);
    }
}

/// A timer that comes to the task was passed on.
proof fn lemma_answers_come_from_the_batch(
    active: Map<ActorTimerId, ActiveTimer>,
    started: Seq<StartedTimer>,
    entries: Seq<u64>,
    id: ActorTimerId,
)
    ensures
        state::with_answers(active, started, entries).contains_key(id) ==> active.contains_key(id)
            || exists|i: int| 0 <= i < started.len() && (#[trigger] started[i]).timer_id == id,
    decreases started.len(),
{
    if started.len() > 0 {
        let front = started.drop_last();
        lemma_answers_come_from_the_batch(active, front, entries, id);
        if exists|i: int| 0 <= i < front.len() && (#[trigger] front[i]).timer_id == id {
            let i = choose|i: int| 0 <= i < front.len() && (#[trigger] front[i]).timer_id == id;
            assert(started[i].timer_id == id);
        }
        assert(started[started.len() - 1] == started.last());
    }
}

/// The cancellations that are passed on name the entries of all timers that are marked,
/// each once. None is marked afterwards, and where none was nothing is passed on.
pub proof fn law_flush_passes_on_what_is_marked<C>(
    actor: &mut TimerActor<C>,
    batch: Option<BatchTimerCancellation>,
    id: ActorTimerId,
)
    requires
        old(actor).wf(),
        old(actor)@.withdrawn.len() == 0,
        call_ensures(TimerActor::<C>::begin_cancel_flush, (actor,), batch),
    ensures
        final(actor).spec_config() == old(actor).spec_config(),
        ({
            let was = old(actor)@;
            let post = final(actor)@;
            &&& batch is None <==> was.cancelling.len() == 0
            &&& batch is None ==> post == was
            &&& batch matches Some(passed) ==> {
                &&& !post.cancelling.contains(id)
                &&& post.buffered == was.buffered
                &&& post.active == was.active
                &&& post.withdrawn.no_duplicates()
                &&& post.withdrawn.contains(id) <==> was.cancelling.contains(id)
                &&& passed.entry_ids@.len() == post.withdrawn.len()
                &&& forall|i: int|
                    0 <= i < post.withdrawn.len() ==> #[trigger] passed.entry_ids@[i]
                        == was.active[post.withdrawn[i]].entry_id
            }
        }),
{
    let post = final(actor)@;
    assert(post.withdrawn.contains(id) <==> post.withdrawn.to_set().contains(id));
}

/// Once the task has carried the cancellations out, their timers are gone, and no other
/// timer is. Where the task was not reached, all timers stay.
pub proof fn law_withdrawn_timers_are_gone<C>(
    actor: &mut TimerActor<C>,
    result: Result<BatchTimerResult<bool>, TimerError>,
    id: ActorTimerId,
)
    requires
        call_ensures(TimerActor::<C>::complete_cancel_flush, (actor, result), ()),
    ensures
        final(actor).spec_config() == old(actor).spec_config(),
        ({
            let was = old(actor)@;
            let post = final(actor)@;
            &&& post.withdrawn.len() == 0
            &&& post.buffered == was.buffered
            &&& post.next_id == was.next_id
            &&& result is Err ==> post.active == was.active && post.cancelling == was.cancelling
            &&& result is Ok ==> (post.active.contains_key(id) <==> was.active.contains_key(id)
                && !was.withdrawn.contains(id))
            &&& post.active.contains_key(id) ==> post.active[id] == was.active[id]
        }),
{
    let was = old(actor)@;
    assert(was.withdrawn.contains(id) <==> was.withdrawn.to_set().contains(id));
}

/// Whether a command or the work on it can go on is a matter of identifiers and counters
/// that can be represented.
pub proof fn law_can_handle_what_can_be_counted<C>(
    actor: TimerActor<C>,
    command: TimerActorCommand<C>,
    can: bool,
)
    requires
        call_ensures(TimerActor::<C>::can_handle, (&actor, &command), can),
    ensures
        can <==> (command is RegisterTimer || command is RegisterPathValidationTimer
            || command is RegisterRetransmissionTimer
            || command is RegisterPacketRetransmissionTimer
            || command is RegisterFinProcessingTimer ==> actor@.next_id + 1 < u64::MAX) && (
        command is CancelTimerById ==> actor@.cancel_requests < u64::MAX),
{
}

/// New figures are all zero, and the first timer will be the first.
pub proof fn law_figures_start_at_zero(stats: TimerActorStats)
    requires
        call_ensures(TimerActorStats::default, (), stats),
    ensures
        stats.register_buffer_size == 0,
        stats.cancel_buffer_size == 0,
        stats.active_timer_count == 0,
        stats.total_register_requests == 0,
        stats.total_cancel_requests == 0,
        stats.auto_flush_count == 0,
        stats.optimized_operations == 0,
        stats.next_timer_id == 1,
{
}

/// New work has all of its part ahead and nothing done.
pub proof fn law_work_starts_with_all_of_it_ahead<C>(
    registrations: Vec<TimerRegistration<TimeoutEvent, C>>,
    register: RegisterJob<C>,
    done: Vec<ActorTimerId>,
    ids: Vec<ActorTimerId>,
    cancel: CancelJob,
    count: usize,
    entries: Vec<(ConnectionId, TimeoutEvent)>,
    types: TypeCancelJob,
)
    requires
        call_ensures(RegisterJob::<C>::new, (registrations,), register),
        call_ensures(RegisterJob::<C>::into_ids, (register,), done),
        call_ensures(CancelJob::new, (ids,), cancel),
        call_ensures(CancelJob::cancelled_count, (&cancel,), count),
        call_ensures(TypeCancelJob::new, (entries,), types),
    ensures
        register.remaining() == registrations@,
        done@.len() == 0,
        cancel.wf(),
        cancel.remaining() == ids@,
        count == 0,
        types.spec_types() == entries@,
        types.spec_current().wf(),
        types.spec_current().remaining().len() == 0,
        types.spec_current().done() == 0,
        types.spec_total() == 0,
{
}

/// Work tells what it has done.
pub proof fn law_work_tells_what_is_done<C>(
    register: RegisterJob<C>,
    done: Vec<ActorTimerId>,
    cancel: CancelJob,
    count: usize,
)
    requires
        call_ensures(RegisterJob::<C>::into_ids, (register,), done),
        call_ensures(CancelJob::cancelled_count, (&cancel,), count),
    ensures
        done@ == register.done(),
        count == cancel.done(),
{
}

/// Work can go on as long as the identifiers and the counts that it needs can be
/// represented.
pub proof fn law_work_goes_on_while_counts_fit<C>(
    actor: TimerActor<C>,
    work: ActorWork<C>,
    can: bool,
)
    requires
        call_ensures(TimerActor::<C>::can_resume, (&actor, &work), can),
    ensures
        work is Answer ==> can,
        work matches ActorWork::Register(job) ==> (can <==> actor@.next_id + job.remaining().len()
            <= u64::MAX),
        work matches ActorWork::Cancel(job) ==> job.wf() ==> (can <==> actor@.cancel_requests
            + job.remaining().len() <= u64::MAX),
        work matches ActorWork::CancelTypes(job) ==> job.spec_current().wf() ==> (can
            <==> actor@.cancel_requests + job.spec_current().remaining().len() <= u64::MAX
            && job.spec_total() + job.spec_current().done()
            + job.spec_current().remaining().len() <= usize::MAX),
{
}

} // verus!
