//! The timer actor: it gathers registrations and cancellations and passes them
//! on to the timer task in batches.
//!
//! The task is reached by messages, so passing a batch on comes in two halves:
//! one that says what is to be sent, and one that takes the answer.

pub mod laws;
pub mod state;

use std::collections::{HashMap, HashSet, VecDeque};
use vstd::prelude::*;

use crate::collections::{map_keys, set_elements};
use crate::timer::actor::state::{ActiveTimer, ActorState, BufferedTimer, StartedTimer};
use crate::timer::event::{ConnectionId, TimeoutEvent};
use crate::timer::task::commands::TimerError;
use crate::timer::task::index::ConnectionIndex;
use crate::timer::task::types::{
    BatchTimerCancellation, BatchTimerRegistration, BatchTimerResult, TimerHandle,
    TimerRegistration,
};

verus! {

broadcast use vstd::std_specs::hash::group_hash_axioms;

/// Identifies a timer of the actor.
pub type ActorTimerId = u64;

/// What is known of a timer.
#[derive(Clone, Copy, Debug, PartialEq, Eq, Structural)]
pub struct TimerInfo {
    pub timer_id: ActorTimerId,
    pub connection_id: ConnectionId,
    pub timeout_event: TimeoutEvent,
    /// The delay, in nanoseconds; zero once the timer was passed on.
    pub delay: u64,
    pub created_at: u64,
    /// Whether the timer waits to be passed on.
    pub in_buffer: bool,
    /// The timer's identifier in the task, once it was passed on.
    pub entry_id: Option<u64>,
}

/// Figures on the actor.
#[derive(Clone, Copy, Debug, PartialEq, Eq, Structural)]
pub struct TimerActorStats {
    pub register_buffer_size: usize,
    pub cancel_buffer_size: usize,
    pub active_timer_count: usize,
    pub total_register_requests: u64,
    pub total_cancel_requests: u64,
    pub auto_flush_count: u64,
    /// Cancellations of timers that were not passed on yet.
    pub optimized_operations: u64,
    pub next_timer_id: ActorTimerId,
}

impl Default for TimerActorStats {
    fn default() -> (stats: Self)
        ensures
            stats == (TimerActorStats {
                register_buffer_size: 0,
                cancel_buffer_size: 0,
                active_timer_count: 0,
                total_register_requests: 0,
                total_cancel_requests: 0,
                auto_flush_count: 0,
                optimized_operations: 0,
                next_timer_id: 1,
            }),
    {
        TimerActorStats {
            register_buffer_size: 0,
            cancel_buffer_size: 0,
            active_timer_count: 0,
            total_register_requests: 0,
            total_cancel_requests: 0,
            auto_flush_count: 0,
            optimized_operations: 0,
            next_timer_id: 1,
        }
    }
}

/// When the actor passes on what it has gathered.
#[derive(Clone, Copy, Debug, PartialEq, Eq, Structural)]
pub struct TimerActorConfig {
    /// As soon as a buffer holds this much.
    pub batch_threshold: usize,
    /// At the latest after this time, in nanoseconds.
    pub flush_interval: u64,
}

impl Default for TimerActorConfig {
    fn default() -> (config: Self)
        ensures
            config == (TimerActorConfig { batch_threshold: 4096, flush_interval: 100_000_000 }),
    {
        TimerActorConfig { batch_threshold: 4096, flush_interval: 100_000_000 }
    }
}

/// Commands to the actor.
#[derive(Debug)]
pub enum TimerActorCommand<C> {
    RegisterTimer { registration: TimerRegistration<TimeoutEvent, C> },
    CancelTimerById { timer_id: ActorTimerId },
    /// Cancels the timers of a connection that stand for one event.
    CancelTimer { connection_id: ConnectionId, timeout_event: TimeoutEvent },
    CancelAllTimers { connection_id: ConnectionId },
    BatchRegisterTimers { registrations: Vec<TimerRegistration<TimeoutEvent, C>> },
    BatchCancelTimersByIds { timer_ids: Vec<ActorTimerId> },
    /// Cancels the timers of each pair of a connection and an event.
    BatchCancelTimers { entries: Vec<(ConnectionId, TimeoutEvent)> },
    RegisterPathValidationTimer {
        connection_id: ConnectionId,
        path_id: u32,
        delay: u64,
        callback: C,
    },
    RegisterRetransmissionTimer {
        connection_id: ConnectionId,
        packet_id: u64,
        delay: u64,
        callback: C,
    },
    RegisterPacketRetransmissionTimer {
        connection_id: ConnectionId,
        sequence_number: u32,
        delay: u64,
        callback: C,
    },
    RegisterFinProcessingTimer { connection_id: ConnectionId, delay: u64, callback: C },
    FlushBuffers,
    GetStats,
    QueryTimer { timer_id: ActorTimerId },
    Shutdown,
}

/// The answer to a command.
#[derive(Debug)]
pub enum TimerActorResponse {
    Registered(Result<ActorTimerId, String>),
    BatchRegistered(Result<Vec<ActorTimerId>, String>),
    Cancelled(bool),
    CancelledCount(usize),
    Stats(TimerActorStats),
    Timer(Option<TimerInfo>),
    /// The buffers were passed on; nobody waits for this.
    Flushed,
}

/// Registrations that are to be made one by one.
pub struct RegisterJob<C> {
    rest: VecDeque<TimerRegistration<TimeoutEvent, C>>,
    ids: Vec<ActorTimerId>,
}

impl<C> RegisterJob<C> {
    /// What is still to be registered.
    pub closed spec fn remaining(&self) -> Seq<TimerRegistration<TimeoutEvent, C>> {
        self.rest@
    }

    /// The timers that were registered.
    pub closed spec fn done(&self) -> Seq<ActorTimerId> {
        self.ids@
    }

    pub fn new(registrations: Vec<TimerRegistration<TimeoutEvent, C>>) -> (job: Self)
        ensures
            job.remaining() == registrations@,
            job.done() == Seq::<ActorTimerId>::empty(),
    {
        let ghost all = registrations@;
        let mut rest: VecDeque<TimerRegistration<TimeoutEvent, C>> = VecDeque::new();
        for registration in iter: registrations
            invariant
                iter.seq() == all,
                rest@ == all.take(iter.index()),
        {
            rest.push_back(registration);
            assert(rest@ =~= all.take(iter.index() + 1));
        }
        assert(all.take(all.len() as int) =~= all);
        RegisterJob { rest, ids: Vec::new() }
    }

    /// The timers that were registered.
    pub fn into_ids(self) -> (ids: Vec<ActorTimerId>)
        ensures
            ids@ == self.done(),
    {
        self.ids
    }
}

/// Timers that are to be cancelled one by one.
pub struct CancelJob {
    ids: Vec<ActorTimerId>,
    next: usize,
    cancelled: usize,
}

impl CancelJob {
    pub closed spec fn wf(&self) -> bool {
        self.cancelled <= self.next <= self.ids@.len()
    }

    /// What is still to be cancelled.
    pub closed spec fn remaining(&self) -> Seq<ActorTimerId> {
        self.ids@.skip(self.next as int)
    }

    /// How many could be cancelled.
    pub closed spec fn done(&self) -> usize {
        self.cancelled
    }

    /// Whether this is the beginning of the cancellation of `ids`.
    pub open spec fn starts(&self, ids: Set<ActorTimerId>) -> bool {
        &&& self.wf()
        &&& self.done() == 0
        &&& self.remaining().no_duplicates()
        &&& self.remaining().to_set() == ids
    }

    pub fn new(ids: Vec<ActorTimerId>) -> (job: Self)
        ensures
            job.wf(),
            job.remaining() == ids@,
            job.done() == 0,
    {
        let job = CancelJob { ids, next: 0, cancelled: 0 };
        assert(job.remaining() =~= ids@);
        job
    }

    /// How many could be cancelled.
    pub fn cancelled_count(&self) -> (count: usize)
        ensures
            count == self.done(),
    {
        self.cancelled
    }
}

/// Cancellations for pairs of a connection and an event, pair by pair.
pub struct TypeCancelJob {
    types: VecDeque<(ConnectionId, TimeoutEvent)>,
    current: CancelJob,
    total: usize,
}

impl TypeCancelJob {
    /// The cancellations for the present pair.
    pub closed spec fn spec_current(&self) -> CancelJob {
        self.current
    }

    /// How many could be cancelled for the pairs before it.
    pub closed spec fn spec_total(&self) -> usize {
        self.total
    }

    /// The pairs that come behind it.
    pub closed spec fn spec_types(&self) -> Seq<(ConnectionId, TimeoutEvent)> {
        self.types@
    }

    pub fn new(entries: Vec<(ConnectionId, TimeoutEvent)>) -> (job: Self)
        ensures
            job.spec_types() == entries@,
            job.spec_current().wf(),
            job.spec_current().remaining() == Seq::<ActorTimerId>::empty(),
            job.spec_current().done() == 0,
            job.spec_total() == 0,
    {
        let ghost all = entries@;
        let mut types: VecDeque<(ConnectionId, TimeoutEvent)> = VecDeque::new();
        for entry in iter: entries
            invariant
                iter.seq() == all,
                types@ == all.take(iter.index()),
        {
            types.push_back(entry);
            assert(types@ =~= all.take(iter.index() + 1));
        }
        assert(all.take(all.len() as int) =~= all);
        TypeCancelJob { types, current: CancelJob::new(Vec::new()), total: 0 }
    }
}

/// What is left to be done for a command.
pub enum ActorWork<C> {
    Answer(TimerActorResponse),
    Register(RegisterJob<C>),
    Cancel(CancelJob),
    CancelTypes(TypeCancelJob),
}

/// What comes next for a command.
pub enum ActorStep<C> {
    /// The command is done, with this answer.
    Reply(TimerActorResponse),
    /// The work goes on.
    Go(ActorWork<C>),
    /// The work goes on after the buffers were passed on.
    Flush(ActorWork<C>),
    /// The actor is to end.
    Stop,
}

/// The next step where all but the answer is done; `flush` says whether the
/// buffers are to be passed on first.
pub open spec fn answer_step<C>(response: TimerActorResponse, flush: bool) -> ActorStep<C> {
    if flush {
        ActorStep::Flush(ActorWork::Answer(response))
    } else {
        ActorStep::Reply(response)
    }
}

fn answer<C>(response: TimerActorResponse, flush: bool) -> (step: ActorStep<C>)
    ensures
        step == answer_step::<C>(response, flush),
{
    if flush {
        ActorStep::Flush(ActorWork::Answer(response))
    } else {
        ActorStep::Reply(response)
    }
}

/// The registration that a command asks for, if it asks for one.
pub open spec fn registration_of<C>(command: TimerActorCommand<C>, next_id: ActorTimerId) -> Option<
    TimerRegistration<TimeoutEvent, C>,
> {
    match command {
        TimerActorCommand::RegisterTimer { registration } => Some(registration),
        TimerActorCommand::RegisterPathValidationTimer {
            connection_id,
            path_id,
            delay,
            callback,
        } => Some(
            TimerRegistration {
                connection_id,
                delay,
                timeout_event: TimeoutEvent::PathValidationTimeout,
                callback,
            },
        ),
        TimerActorCommand::RegisterRetransmissionTimer {
            connection_id,
            packet_id,
            delay,
            callback,
        } => Some(
            TimerRegistration {
                connection_id,
                delay,
                timeout_event: TimeoutEvent::RetransmissionTimeout,
                callback,
            },
        ),
        TimerActorCommand::RegisterPacketRetransmissionTimer {
            connection_id,
            sequence_number,
            delay,
            callback,
        } => Some(
            TimerRegistration {
                connection_id,
                delay,
                timeout_event: TimeoutEvent::PacketRetransmissionTimeout {
                    sequence_number,
                    timer_id: next_id,
                },
                callback,
            },
        ),
        TimerActorCommand::RegisterFinProcessingTimer { connection_id, delay, callback } => Some(
            TimerRegistration {
                connection_id,
                delay,
                timeout_event: TimeoutEvent::ConnectionTimeout,
                callback,
            },
        ),
        _ => None,
    }
}

/// Whether the identifiers and the counter that a command needs can be represented.
pub open spec fn manageable<C>(state: ActorState<C>, command: TimerActorCommand<C>) -> bool {
    &&& registration_of(command, state.next_id) is Some ==> state.next_id + 1 < u64::MAX
    &&& command is CancelTimerById ==> state.cancel_requests < u64::MAX
}

/// Whether the identifiers and the counters that the work needs can be represented.
pub open spec fn resumable<C>(state: ActorState<C>, work: ActorWork<C>) -> bool {
    match work {
        ActorWork::Answer(_) => true,
        ActorWork::Register(job) => state.next_id + job.remaining().len() <= u64::MAX,
        ActorWork::Cancel(job) => job.wf() && state.cancel_requests + job.remaining().len()
            <= u64::MAX,
        ActorWork::CancelTypes(job) => {
            &&& job.spec_current().wf()
            &&& state.cancel_requests + job.spec_current().remaining().len() <= u64::MAX
            &&& job.spec_total() + job.spec_current().done()
                + job.spec_current().remaining().len() <= usize::MAX
        },
    }
}

/// Whether `step` and `after` are what comes of a command.
pub open spec fn handled<C>(
    before: ActorState<C>,
    config: TimerActorConfig,
    command: TimerActorCommand<C>,
    now: u64,
    after: ActorState<C>,
    step: ActorStep<C>,
) -> bool {
    match registration_of(command, before.next_id) {
        Some(registration) => {
            let from = if command is RegisterPacketRetransmissionTimer {
                before.skipped_id()
            } else {
                before
            };
            &&& after == from.registered(registration, now)
            &&& step == answer_step::<C>(
                TimerActorResponse::Registered(Ok(from.next_id)),
                from.register_fills(config.batch_threshold),
            )
        },
        None => match command {
            TimerActorCommand::CancelTimerById { timer_id } => {
                &&& after == before.cancelled(timer_id)
                &&& step == answer_step::<C>(
                    TimerActorResponse::Cancelled(before.cancellable(timer_id)),
                    before.cancel_fills(timer_id, config.batch_threshold),
                )
            },
            TimerActorCommand::CancelTimer { connection_id, timeout_event } => {
                &&& after == before
                &&& step matches ActorStep::Go(ActorWork::Cancel(job))
                &&& job.starts(before.of_type(connection_id, timeout_event))
            },
            TimerActorCommand::CancelAllTimers { connection_id } => {
                &&& after == before
                &&& step matches ActorStep::Go(ActorWork::Cancel(job))
                &&& job.starts(before.of_connection(connection_id))
            },
            TimerActorCommand::BatchRegisterTimers { registrations } => {
                &&& after == before
                &&& step matches ActorStep::Go(ActorWork::Register(job))
                &&& job.remaining() == registrations@
                &&& job.done() == Seq::<ActorTimerId>::empty()
            },
            TimerActorCommand::BatchCancelTimersByIds { timer_ids } => {
                &&& after == before
                &&& step matches ActorStep::Go(ActorWork::Cancel(job))
                &&& job.wf()
                &&& job.remaining() == timer_ids@
                &&& job.done() == 0
            },
            TimerActorCommand::BatchCancelTimers { entries } => {
                &&& after == before
                &&& step matches ActorStep::Go(ActorWork::CancelTypes(job))
                &&& job.spec_types() == entries@
                &&& job.spec_current().wf()
                &&& job.spec_current().remaining() == Seq::<ActorTimerId>::empty()
                &&& job.spec_current().done() == 0
                &&& job.spec_total() == 0
            },
            TimerActorCommand::FlushBuffers => {
                &&& after == before
                &&& step == ActorStep::<C>::Flush(
                    ActorWork::Answer(TimerActorResponse::Flushed),
                )
            },
            TimerActorCommand::GetStats => {
                &&& after == before
                &&& step matches ActorStep::Reply(TimerActorResponse::Stats(stats))
                &&& stats == before.figures()
            },
            TimerActorCommand::QueryTimer { timer_id } => {
                &&& after == before
                &&& step == ActorStep::<C>::Reply(
                    TimerActorResponse::Timer(before.info(timer_id, now)),
                )
            },
            _ => after == before && step is Stop,
        },
    }
}

/// Whether `step` and `after` are what comes of going on with `work`.
pub open spec fn resumed<C>(
    before: ActorState<C>,
    config: TimerActorConfig,
    work: ActorWork<C>,
    now: u64,
    after: ActorState<C>,
    step: ActorStep<C>,
) -> bool {
    match work {
        ActorWork::Answer(response) => after == before && step == ActorStep::<C>::Reply(response),
        ActorWork::Register(job) => match step {
            ActorStep::Flush(ActorWork::Register(rest)) => registered_by(
                before,
                config,
                now,
                job,
                after,
                rest,
                true,
            ),
            ActorStep::Reply(TimerActorResponse::BatchRegistered(Ok(ids))) => exists|
                rest: RegisterJob<C>,
            | #[trigger]
                registered_by(before, config, now, job, after, rest, false) && ids@ == rest.done(),
            _ => false,
        },
        ActorWork::Cancel(job) => match step {
            ActorStep::Flush(ActorWork::Cancel(rest)) => cancelled_by(
                before,
                config,
                job,
                after,
                rest,
                true,
            ),
            ActorStep::Reply(TimerActorResponse::CancelledCount(count)) => exists|rest: CancelJob|
             #[trigger]
                cancelled_by(before, config, job, after, rest, false) && count == rest.done(),
            _ => false,
        },
        ActorWork::CancelTypes(job) => match step {
            ActorStep::Flush(ActorWork::CancelTypes(rest)) => {
                &&& cancelled_by(
                    before,
                    config,
                    job.spec_current(),
                    after,
                    rest.spec_current(),
                    true,
                )
                &&& rest.spec_types() == job.spec_types()
                &&& rest.spec_total() == job.spec_total()
            },
            ActorStep::Go(ActorWork::CancelTypes(rest)) => {
                &&& job.spec_types().len() > 0
                &&& rest.spec_types() == job.spec_types().skip(1)
                &&& exists|done: CancelJob| #[trigger]
                    cancelled_by(before, config, job.spec_current(), after, done, false)
                        && rest.spec_total() == job.spec_total() + done.done()
                &&& rest.spec_current().starts(
                    after.of_type(job.spec_types()[0].0, job.spec_types()[0].1),
                )
            },
            ActorStep::Reply(TimerActorResponse::CancelledCount(count)) => {
                &&& job.spec_types().len() == 0
                &&& exists|rest: CancelJob| #[trigger]
                    cancelled_by(before, config, job.spec_current(), after, rest, false) && count
                        == job.spec_total() + rest.done()
            },
            _ => false,
        },
    }
}

/// Gathers registrations and cancellations for the timer task.
pub struct TimerActor<C> {
    config: TimerActorConfig,
    next_timer_id: ActorTimerId,
    register_buffer: HashMap<ActorTimerId, BufferedTimer<C>>,
    started: Vec<StartedTimer>,
    active_timers: HashMap<ActorTimerId, ActiveTimer>,
    cancel_buffer: HashSet<ActorTimerId>,
    withdrawn: Vec<ActorTimerId>,
    index: ConnectionIndex,
    stats: TimerActorStats,
    last_flush_time: u64,
}

impl<C> View for TimerActor<C> {
    type V = ActorState<C>;

    closed spec fn view(&self) -> ActorState<C> {
        ActorState {
            next_id: self.next_timer_id,
            buffered: self.register_buffer@,
            started: self.started@,
            active: self.active_timers@,
            cancelling: self.cancel_buffer@,
            withdrawn: self.withdrawn@,
            register_requests: self.stats.total_register_requests as int,
            cancel_requests: self.stats.total_cancel_requests as int,
            auto_flushes: self.stats.auto_flush_count as int,
            optimized: self.stats.optimized_operations as int,
            last_flush: self.last_flush_time,
        }
    }
}

impl<C> TimerActor<C> {
    /// The state is consistent, and the index of connections agrees with it.
    pub closed spec fn wf(&self) -> bool {
        &&& self@.consistent()
        &&& self.index.wf()
        &&& self.index@ == self@.owners()
    }

    pub closed spec fn spec_config(&self) -> TimerActorConfig {
        self.config
    }

    /// The parts of the state agree at any time.
    pub proof fn law_state_is_consistent(&self)
        requires
            self.wf(),
        ensures
            self@.consistent(),
    {
    }

    /// An actor without timers.
    pub fn new(config: TimerActorConfig, now: u64) -> (actor: Self)
        ensures
            actor.wf(),
            actor.spec_config() == config,
            actor@ == (ActorState {
                next_id: 1,
                buffered: Map::<ActorTimerId, BufferedTimer<C>>::empty(),
                started: Seq::empty(),
                active: Map::empty(),
                cancelling: Set::empty(),
                withdrawn: Seq::empty(),
                register_requests: 0,
                cancel_requests: 0,
                auto_flushes: 0,
                optimized: 0,
                last_flush: now,
            }),
    {
        let actor = TimerActor {
            config,
            next_timer_id: 1,
            register_buffer: HashMap::new(),
            started: Vec::new(),
            active_timers: HashMap::new(),
            cancel_buffer: HashSet::new(),
            withdrawn: Vec::new(),
            index: ConnectionIndex::new(),
            stats: TimerActorStats::default(),
            last_flush_time: now,
        };
        assert(actor.index@ =~= actor@.owners());
        assert(actor.withdrawn@.to_set() =~= Set::empty());
        actor
    }

    fn allocate_timer_id(&mut self) -> (id: ActorTimerId)
        requires
            old(self).next_timer_id < u64::MAX,
        ensures
            id == old(self).next_timer_id,
            *final(self) == (TimerActor {
                next_timer_id: (id + 1) as u64,
                stats: TimerActorStats { next_timer_id: (id + 1) as u64, ..old(self).stats },
                ..*old(self)
            }),
    {
        let id = self.next_timer_id;
        self.next_timer_id = id + 1;
        self.stats.next_timer_id = self.next_timer_id;
        id
    }

    /// Registers a timer. The second part of the result says whether the buffers
    /// are to be passed on now.
    pub fn handle_register_timer(
        &mut self,
        registration: TimerRegistration<TimeoutEvent, C>,
        now: u64,
    ) -> (result: (Result<ActorTimerId, String>, bool))
        requires
            old(self).wf(),
            old(self)@.next_id < u64::MAX,
        ensures
            final(self).wf(),
            final(self).spec_config() == old(self).spec_config(),
            final(self)@ == old(self)@.registered(registration, now),
            result.0 == Ok::<ActorTimerId, String>(old(self)@.next_id),
            result.1 == old(self)@.register_fills(old(self).spec_config().batch_threshold),
    {
        let ghost before = self@;
        let timer_id = self.allocate_timer_id();
        let connection_id = registration.connection_id;
        self.register_buffer.insert(
            timer_id,
            BufferedTimer { timer_id, registration, created_at: now },
        );
        self.index.link(timer_id, connection_id);
        self.stats.total_register_requests = self.stats.total_register_requests + 1;
        proof {
            state::lemma_registered(before, registration, now);
            assert(self@ == before.registered(registration, now));
        }
        let due = self.register_buffer.len() >= self.config.batch_threshold;
        (Ok(timer_id), due)
    }

    /// Cancels a timer. The first part of the result says whether there was one
    /// that was not cancelled yet, the second whether the buffers are to be passed
    /// on now.
    pub fn handle_cancel_timer_by_id(&mut self, timer_id: ActorTimerId) -> (result: (bool, bool))
        requires
            old(self).wf(),
            old(self)@.cancel_requests < u64::MAX,
        ensures
            final(self).wf(),
            final(self).spec_config() == old(self).spec_config(),
            final(self)@ == old(self)@.cancelled(timer_id),
            result.0 == old(self)@.cancellable(timer_id),
            !final(self)@.cancellable(timer_id),
            result.1 == old(self)@.cancel_fills(
                timer_id,
                old(self).spec_config().batch_threshold,
            ),
    {
        let ghost before = self@;
        proof {
            state::lemma_cancelled(before, timer_id);
            state::law_timer_is_cancelled_once(before, timer_id);
        }
        if self.register_buffer.contains_key(&timer_id) {
            self.register_buffer.remove(&timer_id);
            self.index.unlink(timer_id);
            self.stats.optimized_operations = self.stats.optimized_operations + 1;
            self.stats.total_cancel_requests = self.stats.total_cancel_requests + 1;
            assert(self@ == before.cancelled(timer_id));
            return (true, false);
        }
        if self.active_timers.contains_key(&timer_id) && !self.cancel_buffer.contains(&timer_id) {
            self.cancel_buffer.insert(timer_id);
            self.stats.total_cancel_requests = self.stats.total_cancel_requests + 1;
            assert(self@ == before.cancelled(timer_id));
            let due = self.cancel_buffer.len() >= self.config.batch_threshold;
            return (true, due);
        }
        (false, false)
    }

    /// The timers of a connection, each once.
    pub fn timers_of_connection(&self, connection_id: ConnectionId) -> (ids: Vec<ActorTimerId>)
        requires
            self.wf(),
        ensures
            ids@.no_duplicates(),
            ids@.to_set() == self@.of_connection(connection_id),
    {
        let ids = self.index.entries(connection_id);
        assert(crate::timer::task::index::entries_of(self.index@, connection_id)
            =~= self@.of_connection(connection_id));
        ids
    }

    /// The timers of a connection that stand for `timeout_event`, each once.
    pub fn timers_of_type(&self, connection_id: ConnectionId, timeout_event: TimeoutEvent) -> (ids:
        Vec<ActorTimerId>)
        requires
            self.wf(),
        ensures
            ids@.no_duplicates(),
            ids@.to_set() == self@.of_type(connection_id, timeout_event),
    {
        let all = self.timers_of_connection(connection_id);
        let mut ids: Vec<ActorTimerId> = Vec::new();
        let mut i: usize = 0;
        while i < all.len()
            invariant
                i <= all@.len(),
                all@.no_duplicates(),
                all@.to_set() == self@.of_connection(connection_id),
                ids@.no_duplicates(),
                forall|id: ActorTimerId| #[trigger]
                    ids@.contains(id) <==> all@.take(i as int).contains(id) && self@.event_of(id)
                        == timeout_event,
            decreases all@.len() - i,
        {
            let id: ActorTimerId = all[i];
            let ghost before = ids@;
            proof {
                assert(all@.to_set().contains(id));
                assert(self@.known(id));
                assert(!all@.take(i as int).contains(id));
                assert(!before.contains(id));
                assert(before.push(id).no_duplicates());
                assert(all@.take(i + 1) =~= all@.take(i as int).push(id));
                assert forall|x: ActorTimerId| #[trigger]
                    all@.take(i as int).push(id).contains(x) <==> all@.take(i as int).contains(x)
                    || x == id by {
                    vstd::seq_lib::lemma_seq_contains_after_push(all@.take(i as int), id, x);
                }
                assert forall|x: ActorTimerId| #[trigger] before.push(id).contains(x) <==> before.contains(
                x) || x == id by {
                    vstd::seq_lib::lemma_seq_contains_after_push(before, id, x);
                }
            }
            if self.stands_for(id, timeout_event) {
                ids.push(id);
            }
            i = i + 1;
        }
        proof {
            assert(all@.take(all@.len() as int) =~= all@);
            assert forall|id: ActorTimerId| ids@.to_set().contains(id) <==> self@.of_type(
                connection_id,
                timeout_event,
            ).contains(id) by {
                assert(ids@.contains(id) <==> all@.contains(id) && self@.event_of(id)
                    == timeout_event);
                assert(all@.contains(id) <==> all@.to_set().contains(id));
            }
            assert(ids@.to_set() =~= self@.of_type(connection_id, timeout_event));
        }
        ids
    }

    /// Whether a timer stands for `timeout_event`.
    fn stands_for(&self, id: ActorTimerId, timeout_event: TimeoutEvent) -> (hit: bool)
        requires
            self@.known(id),
        ensures
            hit == (self@.event_of(id) == timeout_event),
    {
        match self.register_buffer.get(&id) {
            Some(timer) => timer.registration.timeout_event == timeout_event,
            None => match self.active_timers.get(&id) {
                Some(timer) => timer.timeout_event == timeout_event,
                None => false,
            },
        }
    }

    /// The cancellation of all timers of a connection that stand for `timeout_event`.
    pub fn handle_cancel_timer_by_type(
        &self,
        connection_id: ConnectionId,
        timeout_event: TimeoutEvent,
    ) -> (job: CancelJob)
        requires
            self.wf(),
        ensures
            job.starts(self@.of_type(connection_id, timeout_event)),
    {
        CancelJob::new(self.timers_of_type(connection_id, timeout_event))
    }

    /// The cancellation of all timers of a connection.
    pub fn handle_cancel_all_timers(&self, connection_id: ConnectionId) -> (job: CancelJob)
        requires
            self.wf(),
        ensures
            job.starts(self@.of_connection(connection_id)),
    {
        CancelJob::new(self.timers_of_connection(connection_id))
    }

    /// Goes on with cancellations until they are done, or until the buffers are
    /// to be passed on, which the result says.
    pub fn run_cancellations(&mut self, job: &mut CancelJob) -> (flush: bool)
        requires
            old(self).wf(),
            old(job).wf(),
            old(self)@.cancel_requests + old(job).remaining().len() <= u64::MAX,
        ensures
            final(self).wf(),
            final(self).spec_config() == old(self).spec_config(),
            final(job).wf(),
            cancelled_by(
                old(self)@,
                old(self).spec_config(),
                *old(job),
                final(self)@,
                *final(job),
                flush,
            ),
    {
        let ghost before = self@;
        let ghost ids = job.remaining();
        let ghost start = job.next as int;
        let ghost threshold = self.config.batch_threshold;
        let ghost mut n: int = 0;
        assert(ids.take(0) =~= Seq::<ActorTimerId>::empty());
        assert(ids.skip(0) =~= ids);
        while job.next < job.ids.len()
            invariant
                self.wf(),
                self.config == old(self).config,
                threshold == self.config.batch_threshold,
                before == old(self)@,
                ids == old(job).remaining(),
                start == old(job).next,
                job.ids == old(job).ids,
                job.next <= job.ids@.len(),
                job.cancelled <= job.next,
                0 <= n <= ids.len(),
                n == job.next - start,
                ids == job.ids@.skip(start),
                self@ == before.cancelled_all(ids.take(n)),
                job.cancelled == old(job).cancelled + before.cancel_count(ids.take(n)),
                self@.cancel_requests + (ids.len() - n) <= u64::MAX,
                forall|j: int|
                    0 <= j < n ==> !(#[trigger] before.cancelled_all(ids.take(j)).cancel_fills(
                        ids[j],
                        threshold,
                    )),
            decreases job.ids@.len() - job.next,
        {
            let id: ActorTimerId = job.ids[job.next];
            proof {
                assert(ids[n] == id);
                assert(ids.take(n + 1).drop_last() =~= ids.take(n));
                assert(ids.take(n + 1).last() == id);
            }
            let (cancelled, due) = self.handle_cancel_timer_by_id(id);
            job.next = job.next + 1;
            if cancelled {
                job.cancelled = job.cancelled + 1;
            }
            proof {
                n = n + 1;
                assert(job.remaining() =~= ids.skip(n));
            }
            if due {
                return true;
            }
        }
        assert(job.remaining() =~= ids.skip(n));
        false
    }

    /// Goes on with registrations until they are done, or until the buffers are
    /// to be passed on, which the result says.
    pub fn run_registrations(&mut self, job: &mut RegisterJob<C>, now: u64) -> (flush: bool)
        requires
            old(self).wf(),
            old(self)@.next_id + old(job).remaining().len() <= u64::MAX,
        ensures
            final(self).wf(),
            final(self).spec_config() == old(self).spec_config(),
            registered_by(
                old(self)@,
                old(self).spec_config(),
                now,
                *old(job),
                final(self)@,
                *final(job),
                flush,
            ),
    {
        let ghost before = self@;
        let ghost all = job.remaining();
        let ghost threshold = self.config.batch_threshold;
        let ghost mut n: int = 0;
        assert(all.take(0) =~= Seq::<TimerRegistration<TimeoutEvent, C>>::empty());
        assert(all.skip(0) =~= all);
        assert(job.done() =~= old(job).done() + Seq::new(
            0,
            |i: int| (before.next_id + i) as u64,
        ));
        while job.rest.len() > 0
            invariant
                self.wf(),
                self.config == old(self).config,
                threshold == self.config.batch_threshold,
                before == old(self)@,
                all == old(job).remaining(),
                0 <= n <= all.len(),
                job.rest@ == all.skip(n),
                before.next_id + all.len() <= u64::MAX,
                self@ == before.registered_all(all.take(n), now),
                self@.next_id == before.next_id + n,
                job.done() == old(job).done() + Seq::new(
                    n as nat,
                    |i: int| (before.next_id + i) as u64,
                ),
                forall|j: int|
                    0 <= j < n ==> !(#[trigger] before.registered_all(
                        all.take(j),
                        now,
                    ).register_fills(threshold)),
            decreases all.len() - n,
        {
            match job.rest.pop_front() {
                Some(registration) => {
                    proof {
                        assert(registration == all[n]);
                        assert(job.rest@ =~= all.skip(n + 1));
                        assert(all.take(n + 1).drop_last() =~= all.take(n));
                        assert(all.take(n + 1).last() == registration);
                    }
                    let (result, due) = self.handle_register_timer(registration, now);
                    if let Ok(id) = result {
                        job.ids.push(id);
                    }
                    proof {
                        n = n + 1;
                        assert(job.done() =~= old(job).done() + Seq::new(
                            n as nat,
                            |i: int| (before.next_id + i) as u64,
                        ));
                    }
                    if due {
                        return true;
                    }
                },
                None => {},
            }
        }
        false
    }

    /// Registers a timer for the validation of a path.
    pub fn handle_register_path_validation_timer(
        &mut self,
        connection_id: ConnectionId,
        delay: u64,
        callback: C,
        now: u64,
    ) -> (result: (Result<ActorTimerId, String>, bool))
        requires
            old(self).wf(),
            old(self)@.next_id < u64::MAX,
        ensures
            final(self).wf(),
            final(self).spec_config() == old(self).spec_config(),
            final(self)@ == old(self)@.registered(
                TimerRegistration {
                    connection_id,
                    delay,
                    timeout_event: TimeoutEvent::PathValidationTimeout,
                    callback,
                },
                now,
            ),
            result.0 == Ok::<ActorTimerId, String>(old(self)@.next_id),
            result.1 == old(self)@.register_fills(old(self).spec_config().batch_threshold),
    {
        let timeout_event = TimeoutEvent::PathValidationTimeout;
        self.handle_register_timer(
            TimerRegistration::new(connection_id, delay, timeout_event, callback),
            now,
        )
    }

    /// Registers a timer for a retransmission.
    pub fn handle_register_retransmission_timer(
        &mut self,
        connection_id: ConnectionId,
        delay: u64,
        callback: C,
        now: u64,
    ) -> (result: (Result<ActorTimerId, String>, bool))
        requires
            old(self).wf(),
            old(self)@.next_id < u64::MAX,
        ensures
            final(self).wf(),
            final(self).spec_config() == old(self).spec_config(),
            final(self)@ == old(self)@.registered(
                TimerRegistration {
                    connection_id,
                    delay,
                    timeout_event: TimeoutEvent::RetransmissionTimeout,
                    callback,
                },
                now,
            ),
            result.0 == Ok::<ActorTimerId, String>(old(self)@.next_id),
            result.1 == old(self)@.register_fills(old(self).spec_config().batch_threshold),
    {
        let timeout_event = TimeoutEvent::RetransmissionTimeout;
        self.handle_register_timer(
            TimerRegistration::new(connection_id, delay, timeout_event, callback),
            now,
        )
    }

    /// Registers a timer for the retransmission of one packet. Its event carries
    /// an identifier of its own, which comes before that of the timer.
    pub fn handle_register_packet_retransmission_timer(
        &mut self,
        connection_id: ConnectionId,
        sequence_number: u32,
        delay: u64,
        callback: C,
        now: u64,
    ) -> (result: (Result<ActorTimerId, String>, bool))
        requires
            old(self).wf(),
            old(self)@.next_id + 1 < u64::MAX,
        ensures
            final(self).wf(),
            final(self).spec_config() == old(self).spec_config(),
            ({
                let skipped = old(self)@.skipped_id();
                &&& final(self)@ == skipped.registered(
                    TimerRegistration {
                        connection_id,
                        delay,
                        timeout_event: TimeoutEvent::PacketRetransmissionTimeout {
                            sequence_number,
                            timer_id: old(self)@.next_id,
                        },
                        callback,
                    },
                    now,
                )
                &&& result.0 == Ok::<ActorTimerId, String>(skipped.next_id)
                &&& result.1 == skipped.register_fills(old(self).spec_config().batch_threshold)
            }),
    {
        let ghost before = self@;
        let timer_id = self.allocate_timer_id();
        proof {
            let skipped = before.skipped_id();
            assert(self@ == skipped);
            assert(skipped.owners() =~= before.owners());
            assert forall|id: ActorTimerId| #[trigger] skipped.known(id) implies id
                < skipped.next_id by {
                assert(before.known(id));
            }
            assert forall|i: int| 0 <= i < skipped.started.len() implies (
            #[trigger] skipped.started[i]).timer_id < skipped.next_id && !skipped.known(
                skipped.started[i].timer_id,
            ) by {
                assert(!before.known(before.started[i].timer_id));
            }
        }
        let timeout_event = TimeoutEvent::PacketRetransmissionTimeout {
            sequence_number,
            timer_id,
        };
        self.handle_register_timer(
            TimerRegistration::new(connection_id, delay, timeout_event, callback),
            now,
        )
    }

    /// Registers a timer for the end of a connection.
    pub fn handle_register_fin_processing_timer(
        &mut self,
        connection_id: ConnectionId,
        delay: u64,
        callback: C,
        now: u64,
    ) -> (result: (Result<ActorTimerId, String>, bool))
        requires
            old(self).wf(),
            old(self)@.next_id < u64::MAX,
        ensures
            final(self).wf(),
            final(self).spec_config() == old(self).spec_config(),
            final(self)@ == old(self)@.registered(
                TimerRegistration {
                    connection_id,
                    delay,
                    timeout_event: TimeoutEvent::ConnectionTimeout,
                    callback,
                },
                now,
            ),
            result.0 == Ok::<ActorTimerId, String>(old(self)@.next_id),
            result.1 == old(self)@.register_fills(old(self).spec_config().batch_threshold),
    {
        let timeout_event = TimeoutEvent::ConnectionTimeout;
        self.handle_register_timer(
            TimerRegistration::new(connection_id, delay, timeout_event, callback),
            now,
        )
    }

    pub fn get_current_stats(&self) -> (stats: TimerActorStats)
        requires
            self.wf(),
        ensures
            stats == self@.figures(),
            stats.register_buffer_size == self@.buffered.dom().len(),
            stats.cancel_buffer_size == self@.cancelling.len(),
            stats.active_timer_count == self@.active.dom().len(),
    {
        TimerActorStats {
            register_buffer_size: self.register_buffer.len(),
            cancel_buffer_size: self.cancel_buffer.len(),
            active_timer_count: self.active_timers.len(),
            next_timer_id: self.next_timer_id,
            ..self.stats
        }
    }

    /// What is known of a timer; of one that was passed on, neither the delay nor
    /// the time of its registration are known any more.
    pub fn query_timer_info(&self, timer_id: ActorTimerId, now: u64) -> (info: Option<TimerInfo>)
        requires
            self.wf(),
        ensures
            info == self@.info(timer_id, now),
    {
        if let Some(timer) = self.register_buffer.get(&timer_id) {
            return Some(
                TimerInfo {
                    timer_id,
                    connection_id: timer.registration.connection_id,
                    timeout_event: timer.registration.timeout_event,
                    delay: timer.registration.delay,
                    created_at: timer.created_at,
                    in_buffer: true,
                    entry_id: None,
                },
            );
        }
        match self.active_timers.get(&timer_id) {
            Some(timer) => Some(
                TimerInfo {
                    timer_id,
                    connection_id: timer.connection_id,
                    timeout_event: timer.timeout_event,
                    delay: 0,
                    created_at: now,
                    in_buffer: false,
                    entry_id: Some(timer.entry_id),
                },
            ),
            None => None,
        }
    }

    /// Whether the buffers are to be passed on at `now` because that was last
    /// done too long ago.
    pub fn should_auto_flush(&self, now: u64) -> (due: bool)
        requires
            self.wf(),
        ensures
            due == ({
                &&& self@.buffered.dom().len() > 0 || self@.cancelling.len() > 0
                &&& self.spec_config().flush_interval <= (if now >= self@.last_flush {
                    now - self@.last_flush
                } else {
                    0
                })
            }),
    {
        (self.register_buffer.len() > 0 || self.cancel_buffer.len() > 0)
            && now.saturating_sub(self.last_flush_time) >= self.config.flush_interval
    }

    /// Whether anything waits to be passed on.
    pub fn has_buffered(&self) -> (waits: bool)
        requires
            self.wf(),
        ensures
            waits == (self@.buffered.dom().len() > 0 || self@.cancelling.len() > 0),
    {
        self.register_buffer.len() > 0 || self.cancel_buffer.len() > 0
    }

    /// Counts a flush that was due by time.
    pub fn note_auto_flush(&mut self)
        requires
            old(self).wf(),
            old(self)@.auto_flushes < u64::MAX,
        ensures
            final(self).wf(),
            final(self).spec_config() == old(self).spec_config(),
            final(self)@ == (ActorState {
                auto_flushes: old(self)@.auto_flushes + 1,
                ..old(self)@
            }),
    {
        self.stats.auto_flush_count = self.stats.auto_flush_count + 1;
        proof {
            state::lemma_same_timers(old(self)@, self@);
        }
    }

    /// Whether the identifiers and the counter that a command needs can be
    /// represented.
    pub fn can_handle(&self, command: &TimerActorCommand<C>) -> (can: bool)
        requires
            self.wf(),
        ensures
            can == manageable(self@, *command),
    {
        match command {
            TimerActorCommand::RegisterTimer { .. } => self.next_timer_id < u64::MAX - 1,
            TimerActorCommand::RegisterPathValidationTimer { .. } => self.next_timer_id < u64::MAX
                - 1,
            TimerActorCommand::RegisterRetransmissionTimer { .. } => self.next_timer_id < u64::MAX
                - 1,
            TimerActorCommand::RegisterPacketRetransmissionTimer { .. } => self.next_timer_id
                < u64::MAX - 1,
            TimerActorCommand::RegisterFinProcessingTimer { .. } => self.next_timer_id < u64::MAX
                - 1,
            TimerActorCommand::CancelTimerById { .. } => self.stats.total_cancel_requests
                < u64::MAX,
            _ => true,
        }
    }

    /// Whether the identifiers and the counters that the work needs can be
    /// represented.
    pub fn can_resume(&self, work: &ActorWork<C>) -> (can: bool)
        requires
            self.wf(),
            match *work {
                ActorWork::Cancel(job) => job.wf(),
                ActorWork::CancelTypes(job) => job.spec_current().wf(),
                _ => true,
            },
        ensures
            can == resumable(self@, *work),
    {
        match work {
            ActorWork::Answer(_) => true,
            ActorWork::Register(job) => job.rest.len() as u64 <= u64::MAX - self.next_timer_id,
            ActorWork::Cancel(job) => (job.ids.len() - job.next) as u64 <= u64::MAX
                - self.stats.total_cancel_requests,
            ActorWork::CancelTypes(job) => {
                let left: usize = job.current.ids.len() - job.current.next;
                left as u64 <= u64::MAX - self.stats.total_cancel_requests
                    && job.current.cancelled <= usize::MAX - job.total && left <= usize::MAX
                    - job.total - job.current.cancelled
            },
        }
    }

    /// Carries out a command, or its first part.
    pub fn handle_command(&mut self, command: TimerActorCommand<C>, now: u64) -> (step: ActorStep<
        C,
    >)
        requires
            old(self).wf(),
            manageable(old(self)@, command),
        ensures
            final(self).wf(),
            final(self).spec_config() == old(self).spec_config(),
            handled(
                old(self)@,
                old(self).spec_config(),
                command,
                now,
                final(self)@,
                step,
            ),
    {
        match command {
            TimerActorCommand::RegisterTimer { registration } => {
                let (result, flush) = self.handle_register_timer(registration, now);
                answer(TimerActorResponse::Registered(result), flush)
            },
            TimerActorCommand::CancelTimerById { timer_id } => {
                let (cancelled, flush) = self.handle_cancel_timer_by_id(timer_id);
                answer(TimerActorResponse::Cancelled(cancelled), flush)
            },
            TimerActorCommand::CancelTimer { connection_id, timeout_event } => {
                let job = self.handle_cancel_timer_by_type(connection_id, timeout_event);
                ActorStep::Go(ActorWork::Cancel(job))
            },
            TimerActorCommand::CancelAllTimers { connection_id } => {
                let job = self.handle_cancel_all_timers(connection_id);
                ActorStep::Go(ActorWork::Cancel(job))
            },
            TimerActorCommand::BatchRegisterTimers { registrations } => {
                ActorStep::Go(ActorWork::Register(RegisterJob::new(registrations)))
            },
            TimerActorCommand::BatchCancelTimersByIds { timer_ids } => {
                ActorStep::Go(ActorWork::Cancel(CancelJob::new(timer_ids)))
            },
            TimerActorCommand::BatchCancelTimers { entries } => {
                ActorStep::Go(ActorWork::CancelTypes(TypeCancelJob::new(entries)))
            },
            TimerActorCommand::RegisterPathValidationTimer {
                connection_id,
                path_id: _,
                delay,
                callback,
            } => {
                let (result, flush) = self.handle_register_path_validation_timer(
                    connection_id,
                    delay,
                    callback,
                    now,
                );
                answer(TimerActorResponse::Registered(result), flush)
            },
            TimerActorCommand::RegisterRetransmissionTimer {
                connection_id,
                packet_id: _,
                delay,
                callback,
            } => {
                let (result, flush) = self.handle_register_retransmission_timer(
                    connection_id,
                    delay,
                    callback,
                    now,
                );
                answer(TimerActorResponse::Registered(result), flush)
            },
            TimerActorCommand::RegisterPacketRetransmissionTimer {
                connection_id,
                sequence_number,
                delay,
                callback,
            } => {
                let (result, flush) = self.handle_register_packet_retransmission_timer(
                    connection_id,
                    sequence_number,
                    delay,
                    callback,
                    now,
                );
                answer(TimerActorResponse::Registered(result), flush)
            },
            TimerActorCommand::RegisterFinProcessingTimer { connection_id, delay, callback } => {
                let (result, flush) = self.handle_register_fin_processing_timer(
                    connection_id,
                    delay,
                    callback,
                    now,
                );
                answer(TimerActorResponse::Registered(result), flush)
            },
            TimerActorCommand::FlushBuffers => {
                ActorStep::Flush(ActorWork::Answer(TimerActorResponse::Flushed))
            },
            TimerActorCommand::GetStats => {
                ActorStep::Reply(TimerActorResponse::Stats(self.get_current_stats()))
            },
            TimerActorCommand::QueryTimer { timer_id } => {
                ActorStep::Reply(TimerActorResponse::Timer(self.query_timer_info(timer_id, now)))
            },
            TimerActorCommand::Shutdown => ActorStep::Stop,
        }
    }

    /// Goes on with the work for a command.
    pub fn resume(&mut self, work: ActorWork<C>, now: u64) -> (step: ActorStep<C>)
        requires
            old(self).wf(),
            resumable(old(self)@, work),
        ensures
            final(self).wf(),
            final(self).spec_config() == old(self).spec_config(),
            resumed(old(self)@, old(self).spec_config(), work, now, final(self)@, step),
    {
        match work {
            ActorWork::Answer(response) => ActorStep::Reply(response),
            ActorWork::Register(job) => {
                let mut job = job;
                if self.run_registrations(&mut job, now) {
                    ActorStep::Flush(ActorWork::Register(job))
                } else {
                    ActorStep::Reply(TimerActorResponse::BatchRegistered(Ok(job.into_ids())))
                }
            },
            ActorWork::Cancel(job) => {
                let mut job = job;
                if self.run_cancellations(&mut job) {
                    ActorStep::Flush(ActorWork::Cancel(job))
                } else {
                    ActorStep::Reply(TimerActorResponse::CancelledCount(job.cancelled_count()))
                }
            },
            ActorWork::CancelTypes(job) => {
                let ghost named = job.spec_current().remaining();
                let mut job = job;
                let mut current = job.current;
                if self.run_cancellations(&mut current) {
                    return ActorStep::Flush(
                        ActorWork::CancelTypes(
                            TypeCancelJob { types: job.types, current, total: job.total },
                        ),
                    );
                }
                proof {
                    assert(named.take(named.len() as int) =~= named);
                    state::lemma_cancel_count(old(self)@, named);
                }
                let total: usize = job.total + current.cancelled_count();
                match job.types.pop_front() {
                    Some((connection_id, timeout_event)) => {
                        let current = self.handle_cancel_timer_by_type(
                            connection_id,
                            timeout_event,
                        );
                        ActorStep::Go(
                            ActorWork::CancelTypes(
                                TypeCancelJob { types: job.types, current, total },
                            ),
                        )
                    },
                    None => ActorStep::Reply(TimerActorResponse::CancelledCount(total)),
                }
            },
        }
    }

    /// Takes the timers that wait, and says what is to be passed on to the task,
    /// if anything is.
    pub fn begin_register_flush(&mut self) -> (batch: Option<
        BatchTimerRegistration<TimeoutEvent, C>,
    >)
        requires
            old(self).wf(),
            old(self)@.started.len() == 0,
        ensures
            final(self).wf(),
            final(self).spec_config() == old(self).spec_config(),
            old(self)@.buffered.dom().len() == 0 ==> batch is None && final(self)@ == old(self)@,
            old(self)@.buffered.dom().len() > 0 ==> {
                &&& batch is Some
                &&& final(self)@ == (ActorState {
                    buffered: Map::empty(),
                    started: final(self)@.started,
                    ..old(self)@
                })
                &&& state::passed_on(
                    old(self)@.buffered,
                    final(self)@.started,
                    batch->0.registrations@,
                )
            },
    {
        if self.register_buffer.len() == 0 {
            return None;
        }
        let ghost before = self@;
        let ids = map_keys(&self.register_buffer);
        let mut registrations: Vec<TimerRegistration<TimeoutEvent, C>> = Vec::with_capacity(
            ids.len(),
        );
        let mut i: usize = 0;
        proof {
            assert(ids@.take(0).to_set() =~= Set::empty());
            assert(before.buffered.remove_keys(ids@.take(0).to_set()) =~= before.buffered);
        }
        while i < ids.len()
            invariant
                i <= ids@.len(),
                ids@.no_duplicates(),
                ids@.to_set() == before.buffered.dom(),
                before.consistent(),
                self.index.wf(),
                self.index@ == self@.owners(),
                self.config == old(self).config,
                self@ == (ActorState {
                    buffered: before.buffered.remove_keys(ids@.take(i as int).to_set()),
                    started: self@.started,
                    ..before
                }),
                self@.started.len() == i,
                registrations@.len() == i,
                forall|k: int|
                    0 <= k < i ==> {
                        let timer = before.buffered[ids@[k]];
                        &&& #[trigger] self@.started[k] == (StartedTimer {
                            timer_id: ids@[k],
                            connection_id: timer.registration.connection_id,
                            timeout_event: timer.registration.timeout_event,
                        })
                        &&& registrations@[k] == timer.registration
                    },
            decreases ids@.len() - i,
        {
            let id: ActorTimerId = ids[i];
            let ghost mid = self@;
            proof {
                assert(ids@.to_set().contains(id));
                assert(!ids@.take(i as int).to_set().contains(id)) by {
                    if ids@.take(i as int).contains(id) {
                        let k = choose|k: int| 0 <= k < i && ids@.take(i as int)[k] == id;
                        assert(ids@[k] == ids@[i as int]);
                    }
                }
                assert(mid.buffered.contains_key(id));
                crate::collections::lemma_take_to_set(ids@, i as int);
            }
            match self.register_buffer.remove(&id) {
                Some(timer) => {
                    self.started.push(
                        StartedTimer {
                            timer_id: id,
                            connection_id: timer.registration.connection_id,
                            timeout_event: timer.registration.timeout_event,
                        },
                    );
                    self.index.unlink(id);
                    registrations.push(timer.registration);
                },
                None => {},
            }
            proof {
                assert(self@.buffered =~= before.buffered.remove_keys(
                    ids@.take(i + 1).to_set(),
                ));
                assert(!before.active.contains_key(id)) by {
                    assert(before.buffered.dom().contains(id));
                }
                assert(self.index@ =~= self@.owners());
            }
            i = i + 1;
        }
        proof {
            assert(ids@.take(ids@.len() as int) =~= ids@);
            assert(self@.buffered =~= Map::empty());
            state::lemma_started(before, self@, ids@);
        }
        Some(BatchTimerRegistration::new(registrations))
    }

    /// Takes the task's answer to the registrations that were passed on. Where
    /// the task could not be reached, the timers are forgotten.
    pub fn complete_register_flush(
        &mut self,
        result: Result<BatchTimerResult<TimerHandle>, TimerError>,
    )
        requires
            old(self).wf(),
        ensures
            final(self).wf(),
            final(self).spec_config() == old(self).spec_config(),
            final(self)@ == (match result {
                Ok(batch) => old(self)@.answered(
                    batch.successes@.map_values(|handle: TimerHandle| handle.entry_id),
                ),
                Err(_) => ActorState { started: Seq::empty(), ..old(self)@ },
            }),
    {
        let ghost before = self@;
        let mut started: Vec<StartedTimer> = Vec::new();
        std::mem::swap(&mut started, &mut self.started);
        proof {
            let none = ActorState { started: Seq::empty(), ..before };
            assert(none.owners() =~= before.owners());
            assert forall|id: ActorTimerId| #[trigger] none.known(id) implies id
                < none.next_id by {
                assert(before.known(id));
            }
            assert(self@ == none);
        }
        if let Ok(batch) = result {
            let ghost entries = batch.successes@.map_values(
                |handle: TimerHandle| handle.entry_id,
            );
            let mut i: usize = 0;
            assert(started@.take(0) =~= Seq::<StartedTimer>::empty());
            while i < started.len()
                invariant
                    i <= started@.len(),
                    started@ == before.started,
                    before.consistent(),
                    entries == batch.successes@.map_values(
                        |handle: TimerHandle| handle.entry_id,
                    ),
                    self.config == old(self).config,
                    self.wf(),
                    self@ == (ActorState {
                        started: Seq::empty(),
                        active: state::with_answers(before.active, before.started.take(i as int), entries),
                        ..before
                    }),
                    forall|id: ActorTimerId| #[trigger]
                        self@.known(id) ==> before.known(id) || exists|k: int|
                            0 <= k < i && (#[trigger] before.started[k]).timer_id == id,
                decreases started@.len() - i,
            {
                let timer = started[i];
                let ghost mid = self@;
                proof {
                    let more = before.started.take(i + 1);
                    assert(more.drop_last() =~= before.started.take(i as int));
                    assert(more[i as int] == timer);
                    assert(!mid.known(timer.timer_id)) by {
                        assert(!before.known(before.started[i as int].timer_id));
                    }
                }
                if i < batch.successes.len() {
                    let active = ActiveTimer {
                        entry_id: batch.successes[i].entry_id,
                        connection_id: timer.connection_id,
                        timeout_event: timer.timeout_event,
                    };
                    self.active_timers.insert(timer.timer_id, active);
                    self.index.link(timer.timer_id, timer.connection_id);
                    proof {
                        state::lemma_activated(mid, timer.timer_id, active);
                        assert(self@ == (ActorState {
                            active: mid.active.insert(timer.timer_id, active),
                            ..mid
                        }));
                        assert(before.started[i as int].timer_id == timer.timer_id);
                    }
                }
                i = i + 1;
            }
            assert(before.started.take(before.started.len() as int) =~= before.started);
        }
    }

    /// Takes the cancellations that wait, and says what is to be passed on to the
    /// task, if anything is.
    pub fn begin_cancel_flush(&mut self) -> (batch: Option<BatchTimerCancellation>)
        requires
            old(self).wf(),
            old(self)@.withdrawn.len() == 0,
        ensures
            final(self).wf(),
            final(self).spec_config() == old(self).spec_config(),
            old(self)@.cancelling.len() == 0 ==> batch is None && final(self)@ == old(self)@,
            old(self)@.cancelling.len() > 0 ==> {
                &&& batch is Some
                &&& final(self)@ == (ActorState {
                    cancelling: Set::empty(),
                    withdrawn: final(self)@.withdrawn,
                    ..old(self)@
                })
                &&& final(self)@.withdrawn.no_duplicates()
                &&& final(self)@.withdrawn.to_set() == old(self)@.cancelling
                &&& batch->0.entry_ids@ == final(self)@.withdrawn.map_values(
                    |id: ActorTimerId| old(self)@.active[id].entry_id,
                )
            },
    {
        if self.cancel_buffer.len() == 0 {
            return None;
        }
        let ghost before = self@;
        let ids = set_elements(&self.cancel_buffer);
        let mut entry_ids: Vec<u64> = Vec::with_capacity(ids.len());
        let mut i: usize = 0;
        while i < ids.len()
            invariant
                i <= ids@.len(),
                self@ == before,
                before.consistent(),
                ids@.to_set() == before.cancelling,
                entry_ids@ == ids@.take(i as int).map_values(
                    |id: ActorTimerId| before.active[id].entry_id,
                ),
            decreases ids@.len() - i,
        {
            let id: ActorTimerId = ids[i];
            assert(ids@.to_set().contains(id));
            assert(before.active.dom().contains(id));
            if let Some(timer) = self.active_timers.get(&id) {
                entry_ids.push(timer.entry_id);
            }
            i = i + 1;
            assert(entry_ids@ =~= ids@.take(i as int).map_values(
                |id: ActorTimerId| before.active[id].entry_id,
            ));
        }
        assert(ids@.take(ids@.len() as int) =~= ids@);
        self.cancel_buffer.clear();
        self.withdrawn = ids;
        proof {
            assert(self@.owners() =~= before.owners());
            assert forall|id: ActorTimerId| #[trigger] self@.known(id) implies id
                < self@.next_id by {
                assert(before.known(id));
            }
            assert forall|i: int| 0 <= i < self@.started.len() implies (
            #[trigger] self@.started[i]).timer_id < self@.next_id && !self@.known(
                self@.started[i].timer_id,
            ) by {
                assert(!before.known(before.started[i].timer_id));
            }
        }
        Some(BatchTimerCancellation::new(entry_ids))
    }

    /// Takes the task's answer to the cancellations that were passed on. Where the
    /// task could not be reached, the timers stay as they are.
    pub fn complete_cancel_flush(&mut self, result: Result<BatchTimerResult<bool>, TimerError>)
        requires
            old(self).wf(),
        ensures
            final(self).wf(),
            final(self).spec_config() == old(self).spec_config(),
            final(self)@ == (match result {
                Ok(_) => old(self)@.withdrawn_done(),
                Err(_) => ActorState { withdrawn: Seq::empty(), ..old(self)@ },
            }),
    {
        let ghost before = self@;
        let mut ids: Vec<ActorTimerId> = Vec::new();
        std::mem::swap(&mut ids, &mut self.withdrawn);
        proof {
            assert(ids@.take(0).to_set() =~= Set::<ActorTimerId>::empty());
            assert(self@.withdrawn.to_set() =~= Set::<ActorTimerId>::empty());
            assert(before.active.remove_keys(Set::<ActorTimerId>::empty()) =~= before.active);
            assert(before.cancelling.difference(Set::<ActorTimerId>::empty())
                =~= before.cancelling);
            state::lemma_withdrawn(before, self@, Set::empty());
            assert(self@.owners() =~= before.owners());
        }
        if result.is_ok() {
            let mut i: usize = 0;
            while i < ids.len()
                invariant
                    i <= ids@.len(),
                    ids@ == before.withdrawn,
                    before.consistent(),
                    self.config == old(self).config,
                    self.wf(),
                    self@ == (ActorState {
                        active: before.active.remove_keys(ids@.take(i as int).to_set()),
                        cancelling: before.cancelling.difference(ids@.take(i as int).to_set()),
                        withdrawn: Seq::empty(),
                        ..before
                    }),
                decreases ids@.len() - i,
            {
                let id: ActorTimerId = ids[i];
                let ghost mid = self@;
                proof {
                    crate::collections::lemma_take_to_set(ids@, i as int);
                    assert(before.withdrawn.to_set().contains(id));
                    assert(!before.buffered.contains_key(id)) by {
                        assert(before.active.dom().contains(id));
                        assert(!before.buffered.dom().contains(id));
                    }
                }
                self.active_timers.remove(&id);
                self.cancel_buffer.remove(&id);
                self.index.unlink(id);
                proof {
                    let gone = ids@.take(i + 1).to_set();
                    assert(self@.active =~= before.active.remove_keys(gone));
                    assert(self@.cancelling =~= before.cancelling.difference(gone));
                    state::lemma_withdrawn(before, self@, gone);
                    assert(self.index@ =~= self@.owners());
                }
                i = i + 1;
            }
            assert(ids@.take(ids@.len() as int) =~= ids@);
        }
    }

    /// Closes a flush at `now`.
    pub fn finish_flush(&mut self, now: u64)
        requires
            old(self).wf(),
        ensures
            final(self).wf(),
            final(self).spec_config() == old(self).spec_config(),
            final(self)@ == (ActorState { last_flush: now, ..old(self)@ }),
    {
        self.last_flush_time = now;
        proof {
            state::lemma_same_timers(old(self)@, self@);
        }
    }
}

/// Whether `after` and `rest` are what comes of going on with the cancellations
/// of `job`: until they are done, or until the buffers are to be passed on.
pub open spec fn cancelled_by<C>(
    before: ActorState<C>,
    config: TimerActorConfig,
    job: CancelJob,
    after: ActorState<C>,
    rest: CancelJob,
    flush: bool,
) -> bool {
    let ids = job.remaining();
    let n = ids.len() - rest.remaining().len();
    &&& rest.wf()
    &&& state::cancelled_up_to(before, ids, config.batch_threshold, n, flush)
    &&& after == before.cancelled_all(ids.take(n))
    &&& rest.remaining() == ids.skip(n)
    &&& rest.done() == job.done() + before.cancel_count(ids.take(n))
}

/// Whether `after` and `rest` are what comes of going on with the registrations
/// of `job`: until they are done, or until the buffers are to be passed on.
pub open spec fn registered_by<C>(
    before: ActorState<C>,
    config: TimerActorConfig,
    now: u64,
    job: RegisterJob<C>,
    after: ActorState<C>,
    rest: RegisterJob<C>,
    flush: bool,
) -> bool {
    let all = job.remaining();
    let n = all.len() - rest.remaining().len();
    &&& state::registered_up_to(before, all, now, config.batch_threshold, n, flush)
    &&& after == before.registered_all(all.take(n), now)
    &&& rest.remaining() == all.skip(n)
    &&& rest.done() == job.done() + Seq::new(n as nat, |i: int| (before.next_id + i) as u64)
}

} // verus!
