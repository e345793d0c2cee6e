//! The state of the timer actor, what happens to it, and what follows from that.

use vstd::prelude::*;

use crate::timer::actor::{ActorTimerId, TimerActorStats, TimerInfo};
use crate::timer::event::{ConnectionId, TimeoutEvent};
use crate::timer::task::types::TimerRegistration;

verus! {

/// A timer that waits to be passed on.
#[derive(Debug)]
pub struct BufferedTimer<C> {
    pub timer_id: ActorTimerId,
    pub registration: TimerRegistration<TimeoutEvent, C>,
    pub created_at: u64,
}

/// A timer that was passed on and not answered yet.
#[derive(Clone, Copy, Debug, PartialEq, Eq, Structural)]
pub struct StartedTimer {
    pub timer_id: ActorTimerId,
    pub connection_id: ConnectionId,
    pub timeout_event: TimeoutEvent,
}

/// A timer that the task has.
#[derive(Clone, Copy, Debug, PartialEq, Eq, Structural)]
pub struct ActiveTimer {
    pub entry_id: u64,
    pub connection_id: ConnectionId,
    pub timeout_event: TimeoutEvent,
}

/// The state of the actor.
#[verifier::ext_equal]
pub struct ActorState<C> {
    /// The identifier that the next timer gets.
    pub next_id: ActorTimerId,
    /// The timers that wait to be passed on.
    pub buffered: Map<ActorTimerId, BufferedTimer<C>>,
    /// The timers that were passed on and not answered yet, in the order of the batch.
    pub started: Seq<StartedTimer>,
    /// The timers that the task has.
    pub active: Map<ActorTimerId, ActiveTimer>,
    /// The timers whose cancellation waits to be passed on.
    pub cancelling: Set<ActorTimerId>,
    /// The timers whose cancellation was passed on and not answered yet.
    pub withdrawn: Seq<ActorTimerId>,
    pub register_requests: int,
    pub cancel_requests: int,
    pub auto_flushes: int,
    pub optimized: int,
    /// When the buffers were passed on last.
    pub last_flush: u64,
}

impl<C> ActorState<C> {
    /// Whether there is such a timer, waiting or with the task.
    pub open spec fn known(self, id: ActorTimerId) -> bool {
        self.buffered.contains_key(id) || self.active.contains_key(id)
    }

    /// Whether the timer can be cancelled: there is one, and its cancellation does
    /// not wait already.
    pub open spec fn cancellable(self, id: ActorTimerId) -> bool {
        self.buffered.contains_key(id) || (self.active.contains_key(id)
            && !self.cancelling.contains(id))
    }

    pub open spec fn connection_of(self, id: ActorTimerId) -> ConnectionId {
        if self.buffered.contains_key(id) {
            self.buffered[id].registration.connection_id
        } else {
            self.active[id].connection_id
        }
    }

    pub open spec fn event_of(self, id: ActorTimerId) -> TimeoutEvent {
        if self.buffered.contains_key(id) {
            self.buffered[id].registration.timeout_event
        } else {
            self.active[id].timeout_event
        }
    }

    /// The connection of each timer.
    pub open spec fn owners(self) -> Map<ActorTimerId, ConnectionId> {
        Map::new(|id: ActorTimerId| self.known(id), |id: ActorTimerId| self.connection_of(id))
    }

    /// The timers of a connection.
    pub open spec fn of_connection(self, connection_id: ConnectionId) -> Set<ActorTimerId> {
        Set::new(|id: ActorTimerId| self.known(id) && self.connection_of(id) == connection_id)
    }

    /// The timers of a connection that stand for `timeout_event`.
    pub open spec fn of_type(
        self,
        connection_id: ConnectionId,
        timeout_event: TimeoutEvent,
    ) -> Set<ActorTimerId> {
        Set::new(
            |id: ActorTimerId|
                self.known(id) && self.connection_of(id) == connection_id && self.event_of(id)
                    == timeout_event,
        )
    }

    /// This state with the timer that a registration asks for.
    pub open spec fn registered(
        self,
        registration: TimerRegistration<TimeoutEvent, C>,
        now: u64,
    ) -> Self {
        ActorState {
            next_id: (self.next_id + 1) as u64,
            buffered: self.buffered.insert(
                self.next_id,
                BufferedTimer { timer_id: self.next_id, registration, created_at: now },
            ),
            register_requests: self.register_requests + 1,
            ..self
        }
    }

    /// What is known of a timer.
    pub open spec fn info(self, timer_id: ActorTimerId, now: u64) -> Option<TimerInfo> {
        if self.buffered.contains_key(timer_id) {
            let timer = self.buffered[timer_id];
            Some(
                TimerInfo {
                    timer_id,
                    connection_id: timer.registration.connection_id,
                    timeout_event: timer.registration.timeout_event,
                    delay: timer.registration.delay,
                    created_at: timer.created_at,
                    in_buffer: true,
                    entry_id: None,
                },
            )
        } else if self.active.contains_key(timer_id) {
            let timer = self.active[timer_id];
            Some(
                TimerInfo {
                    timer_id,
                    connection_id: timer.connection_id,
                    timeout_event: timer.timeout_event,
                    delay: 0,
                    created_at: now,
                    in_buffer: false,
                    entry_id: Some(timer.entry_id),
                },
            )
        } else {
            None
        }
    }

    /// The figures on this state.
    pub open spec fn figures(self) -> TimerActorStats {
        TimerActorStats {
            register_buffer_size: self.buffered.dom().len() as usize,
            cancel_buffer_size: self.cancelling.len() as usize,
            active_timer_count: self.active.dom().len() as usize,
            total_register_requests: self.register_requests as u64,
            total_cancel_requests: self.cancel_requests as u64,
            auto_flush_count: self.auto_flushes as u64,
            optimized_operations: self.optimized as u64,
            next_timer_id: self.next_id,
        }
    }

    /// This state with an identifier left out.
    pub open spec fn skipped_id(self) -> Self {
        ActorState { next_id: (self.next_id + 1) as u64, ..self }
    }

    /// This state with the timers that registrations ask for.
    pub open spec fn registered_all(
        self,
        registrations: Seq<TimerRegistration<TimeoutEvent, C>>,
        now: u64,
    ) -> Self
        decreases registrations.len(),
    {
        if registrations.len() == 0 {
            self
        } else {
            self.registered_all(registrations.drop_last(), now).registered(
                registrations.last(),
                now,
            )
        }
    }

    /// This state after a timer was cancelled: one that waits is forgotten, one
    /// that the task has is marked. One that is marked already stays as it is.
    pub open spec fn cancelled(self, id: ActorTimerId) -> Self {
        if self.buffered.contains_key(id) {
            ActorState {
                buffered: self.buffered.remove(id),
                cancel_requests: self.cancel_requests + 1,
                optimized: self.optimized + 1,
                ..self
            }
        } else if self.cancellable(id) {
            ActorState {
                cancelling: self.cancelling.insert(id),
                cancel_requests: self.cancel_requests + 1,
                ..self
            }
        } else {
            self
        }
    }

    /// This state after timers were cancelled one by one.
    pub open spec fn cancelled_all(self, ids: Seq<ActorTimerId>) -> Self
        decreases ids.len(),
    {
        if ids.len() == 0 {
            self
        } else {
            self.cancelled_all(ids.drop_last()).cancelled(ids.last())
        }
    }

    /// How many of `ids`, cancelled one by one, could be cancelled.
    pub open spec fn cancel_count(self, ids: Seq<ActorTimerId>) -> nat
        decreases ids.len(),
    {
        if ids.len() == 0 {
            0
        } else {
            self.cancel_count(ids.drop_last()) + if self.cancelled_all(ids.drop_last()).cancellable(
                ids.last(),
            ) {
                1nat
            } else {
                0nat
            }
        }
    }

    /// Whether a registration fills the buffer.
    pub open spec fn register_fills(self, threshold: usize) -> bool {
        self.buffered.dom().insert(self.next_id).len() >= threshold
    }

    /// Whether the cancellation of `id` fills the buffer.
    pub open spec fn cancel_fills(self, id: ActorTimerId, threshold: usize) -> bool {
        &&& !self.buffered.contains_key(id)
        &&& self.cancellable(id)
        &&& self.cancelling.insert(id).len() >= threshold
    }

    /// This state after the task has answered the registrations that were passed
    /// on: the first timers of the batch got the entries in `entries`.
    pub open spec fn answered(self, entries: Seq<u64>) -> Self {
        ActorState {
            started: Seq::empty(),
            active: with_answers(self.active, self.started, entries),
            ..self
        }
    }

    /// This state after the task has carried out the cancellations that were
    /// passed on.
    pub open spec fn withdrawn_done(self) -> Self {
        ActorState {
            active: self.active.remove_keys(self.withdrawn.to_set()),
            cancelling: self.cancelling.difference(self.withdrawn.to_set()),
            withdrawn: Seq::empty(),
            ..self
        }
    }

    /// The parts of the state agree.
    pub open spec fn consistent(self) -> bool {
        &&& self.buffered.dom().finite()
        &&& self.active.dom().finite()
        &&& self.cancelling.finite()
        &&& self.buffered.dom().disjoint(self.active.dom())
        &&& forall|id: ActorTimerId| #[trigger] self.known(id) ==> id < self.next_id
        &&& forall|id: ActorTimerId| #[trigger]
            self.buffered.contains_key(id) ==> self.buffered[id].timer_id == id
        &&& forall|i: int|
            0 <= i < self.started.len() ==> (#[trigger] self.started[i]).timer_id < self.next_id
                && !self.known(self.started[i].timer_id)
        &&& forall|i: int, j: int|
            0 <= i < j < self.started.len() ==> (#[trigger] self.started[i]).timer_id != (
            #[trigger] self.started[j]).timer_id
        &&& self.cancelling.subset_of(self.active.dom())
        &&& self.withdrawn.no_duplicates()
        &&& self.withdrawn.to_set().subset_of(self.active.dom())
        &&& 0 <= self.register_requests < self.next_id
        &&& 0 <= self.optimized <= self.cancel_requests
    }
}

/// The timers `active` with those of `started` that got an entry.
pub open spec fn with_answers(
    active: Map<ActorTimerId, ActiveTimer>,
    started: Seq<StartedTimer>,
    entries: Seq<u64>,
) -> Map<ActorTimerId, ActiveTimer>
    decreases started.len(),
{
    if started.len() == 0 {
        active
    } else {
        let i = started.len() - 1;
        let before = with_answers(active, started.drop_last(), entries);
        if i < entries.len() {
            before.insert(
                started[i].timer_id,
                ActiveTimer {
                    entry_id: entries[i],
                    connection_id: started[i].connection_id,
                    timeout_event: started[i].timeout_event,
                },
            )
        } else {
            before
        }
    }
}

/// A registration keeps the state consistent.
pub(crate) proof fn lemma_registered<C>(
    state: ActorState<C>,
    registration: TimerRegistration<TimeoutEvent, C>,
    now: u64,
)
    requires
        state.consistent(),
        state.next_id < u64::MAX,
    ensures
        state.registered(registration, now).consistent(),
        !state.owners().contains_key(state.next_id),
        state.registered(registration, now).owners() == state.owners().insert(
            state.next_id,
            registration.connection_id,
        ),
        state.registered(registration, now).buffered.dom() == state.buffered.dom().insert(
            state.next_id,
        ),
{
    let next = state.registered(registration, now);
    assert(!state.known(state.next_id));
    assert(next.buffered.dom() =~= state.buffered.dom().insert(state.next_id));
    assert(next.owners() =~= state.owners().insert(state.next_id, registration.connection_id));
    assert forall|id: ActorTimerId| #[trigger] next.known(id) implies id < next.next_id by {
        assert(state.known(id) || id == state.next_id);
    }
    assert forall|i: int| 0 <= i < next.started.len() implies (#[trigger] next.started[i]).timer_id
        < next.next_id && !next.known(next.started[i].timer_id) by {
        assert(state.started[i].timer_id < state.next_id);
    }
}

/// A cancellation keeps the state consistent.
pub(crate) proof fn lemma_cancelled<C>(state: ActorState<C>, id: ActorTimerId)
    requires
        state.consistent(),
    ensures
        state.cancelled(id).consistent(),
        state.cancelled(id).owners() == (if state.buffered.contains_key(id) {
            state.owners().remove(id)
        } else {
            state.owners()
        }),
        state.cancelled(id).cancel_requests <= state.cancel_requests + 1,
{
    let next = state.cancelled(id);
    if state.buffered.contains_key(id) {
        assert(!state.active.contains_key(id)) by {
            assert(state.buffered.dom().contains(id));
            assert(!state.active.dom().contains(id));
        }
        assert(next.owners() =~= state.owners().remove(id));
    } else {
        assert(next.owners() =~= state.owners());
    }
    assert forall|x: ActorTimerId| #[trigger] next.known(x) implies x < next.next_id by {
        assert(state.known(x));
    }
    assert forall|i: int| 0 <= i < next.started.len() implies (#[trigger] next.started[i]).timer_id
        < next.next_id && !next.known(next.started[i].timer_id) by {
        assert(!state.known(state.started[i].timer_id));
    }
}

/// Consistency does not depend on the flush times.
pub(crate) proof fn lemma_same_timers<C>(state: ActorState<C>, next: ActorState<C>)
    requires
        state.consistent(),
        next == (ActorState {
            auto_flushes: next.auto_flushes,
            last_flush: next.last_flush,
            ..state
        }),
    ensures
        next.consistent(),
        next.owners() == state.owners(),
{
    assert(next.owners() =~= state.owners());
    assert forall|id: ActorTimerId| #[trigger] next.known(id) implies id < next.next_id by {
        assert(state.known(id));
    }
    assert forall|i: int| 0 <= i < next.started.len() implies (#[trigger] next.started[i]).timer_id
        < next.next_id && !next.known(next.started[i].timer_id) by {
        assert(!state.known(state.started[i].timer_id));
    }
}

/// Passing on the timers that wait keeps the state consistent.
pub(crate) proof fn lemma_started<C>(state: ActorState<C>, next: ActorState<C>, ids: Seq<ActorTimerId>)
    requires
        state.consistent(),
        ids.no_duplicates(),
        ids.to_set() == state.buffered.dom(),
        next == (ActorState {
            buffered: Map::<ActorTimerId, BufferedTimer<C>>::empty(),
            started: next.started,
            ..state
        }),
        next.started.len() == ids.len(),
        forall|k: int|
            0 <= k < ids.len() ==> (#[trigger] next.started[k]).timer_id == ids[k],
    ensures
        next.consistent(),
        ids.len() == state.buffered.dom().len(),
        forall|id: ActorTimerId| #[trigger]
            state.buffered.contains_key(id) ==> exists|i: int|
                0 <= i < next.started.len() && (#[trigger] next.started[i]).timer_id == id,
        forall|k: int| 0 <= k < ids.len() ==> state.buffered.contains_key(#[trigger] ids[k]),
{
    ids.unique_seq_to_set();
    assert forall|k: int| 0 <= k < ids.len() implies state.buffered.contains_key(
        #[trigger] ids[k],
    ) by {
        assert(ids.to_set().contains(ids[k]));
    }
    assert forall|id: ActorTimerId| #[trigger] state.buffered.contains_key(id) implies exists|
        i: int,
    |
        0 <= i < next.started.len() && (#[trigger] next.started[i]).timer_id == id by {
        assert(ids.to_set().contains(id));
        let i = choose|i: int| 0 <= i < ids.len() && ids[i] == id;
        assert(next.started[i].timer_id == id);
    }
    assert forall|id: ActorTimerId| #[trigger] next.known(id) implies id < next.next_id by {
        assert(state.known(id));
    }
    assert forall|i: int| 0 <= i < next.started.len() implies (#[trigger] next.started[i]).timer_id
        < next.next_id && !next.known(next.started[i].timer_id) by {
        assert(state.buffered.contains_key(ids[i]));
        assert(state.known(ids[i]));
        assert(state.buffered.dom().contains(ids[i]));
        assert(!state.active.dom().contains(ids[i]));
    }
    assert forall|i: int, j: int| 0 <= i < j < next.started.len() implies (
    #[trigger] next.started[i]).timer_id != (#[trigger] next.started[j]).timer_id by {
        assert(ids[i] != ids[j]);
    }
}

/// A new active timer keeps the state consistent.
pub(crate) proof fn lemma_activated<C>(state: ActorState<C>, id: ActorTimerId, timer: ActiveTimer)
    requires
        state.consistent(),
        state.started.len() == 0,
        id < state.next_id,
        !state.known(id),
    ensures
        ({
            let next = ActorState { active: state.active.insert(id, timer), ..state };
            &&& next.consistent()
            &&& next.owners() == state.owners().insert(id, timer.connection_id)
            &&& forall|x: ActorTimerId| #[trigger] next.known(x) ==> state.known(x) || x == id
        }),
{
    let next = ActorState { active: state.active.insert(id, timer), ..state };
    assert(next.owners() =~= state.owners().insert(id, timer.connection_id));
    assert forall|x: ActorTimerId| #[trigger] next.known(x) implies state.known(x) || x == id by {
    }
    assert(next.active.dom() =~= state.active.dom().insert(id));
}

/// Cancelled timers can go without harm.
pub(crate) proof fn lemma_withdrawn<C>(state: ActorState<C>, next: ActorState<C>, gone: Set<ActorTimerId>)
    requires
        state.consistent(),
        next == (ActorState {
            active: state.active.remove_keys(gone),
            cancelling: state.cancelling.difference(gone),
            withdrawn: Seq::<ActorTimerId>::empty(),
            ..state
        }),
    ensures
        next.consistent(),
        gone.disjoint(state.buffered.dom()) ==> next.owners() == state.owners().remove_keys(gone),
{
    assert(next.active.dom() =~= state.active.dom().difference(gone));
    assert(next.withdrawn.to_set() =~= Set::<ActorTimerId>::empty());
    assert forall|id: ActorTimerId| #[trigger] next.known(id) implies id < next.next_id by {
        assert(state.known(id));
    }
    assert forall|i: int| 0 <= i < next.started.len() implies (#[trigger] next.started[i]).timer_id
        < next.next_id && !next.known(next.started[i].timer_id) by {
        assert(!state.known(state.started[i].timer_id));
    }
    if gone.disjoint(state.buffered.dom()) {
        assert(next.owners() =~= state.owners().remove_keys(gone)) by {
            assert forall|id: ActorTimerId| next.owners().contains_key(id)
                == state.owners().remove_keys(gone).contains_key(id) by {
                if gone.contains(id) {
                    assert(!state.buffered.dom().contains(id));
                }
            }
        }
    }
}

/// No more timers are cancelled than are named.
pub(crate) proof fn lemma_cancel_count<C>(state: ActorState<C>, ids: Seq<ActorTimerId>)
    ensures
        state.cancel_count(ids) <= ids.len(),
    decreases ids.len(),
{
    if ids.len() > 0 {
        lemma_cancel_count(state, ids.drop_last());
    }
}

/// Whether `registrations` are those of all timers of `buffered`, and `started`
/// names the timers in the same order.
pub open spec fn passed_on<C>(
    buffered: Map<ActorTimerId, BufferedTimer<C>>,
    started: Seq<StartedTimer>,
    registrations: Seq<TimerRegistration<TimeoutEvent, C>>,
) -> bool {
    &&& started.len() == registrations.len() == buffered.dom().len()
    &&& forall|i: int|
        0 <= i < started.len() ==> {
            let timer = buffered[(#[trigger] started[i]).timer_id];
            &&& buffered.contains_key(started[i].timer_id)
            &&& started[i].connection_id == timer.registration.connection_id
            &&& started[i].timeout_event == timer.registration.timeout_event
            &&& registrations[i] == timer.registration
        }
    &&& forall|id: ActorTimerId| #[trigger]
        buffered.contains_key(id) ==> exists|i: int|
            0 <= i < started.len() && (#[trigger] started[i]).timer_id == id
}

/// Whether cancelling `ids` one by one stops after `n` of them: at the first one
/// that fills the buffer, or at the end, as `flush` says.
pub open spec fn cancelled_up_to<C>(
    before: ActorState<C>,
    ids: Seq<ActorTimerId>,
    threshold: usize,
    n: int,
    flush: bool,
) -> bool {
    &&& 0 <= n <= ids.len()
    &&& forall|j: int|
        0 <= j < n - 1 ==> !(#[trigger] before.cancelled_all(ids.take(j)).cancel_fills(
            ids[j],
            threshold,
        ))
    &&& if flush {
        n > 0 && before.cancelled_all(ids.take(n - 1)).cancel_fills(ids[n - 1], threshold)
    } else {
        &&& n == ids.len()
        &&& n > 0 ==> !before.cancelled_all(ids.take(n - 1)).cancel_fills(ids[n - 1], threshold)
    }
}

/// Whether making `registrations` one by one stops after `n` of them: at the
/// first one that fills the buffer, or at the end, as `flush` says.
pub open spec fn registered_up_to<C>(
    before: ActorState<C>,
    registrations: Seq<TimerRegistration<TimeoutEvent, C>>,
    now: u64,
    threshold: usize,
    n: int,
    flush: bool,
) -> bool {
    &&& 0 <= n <= registrations.len()
    &&& forall|j: int|
        0 <= j < n - 1 ==> !(#[trigger] before.registered_all(
            registrations.take(j),
            now,
        ).register_fills(threshold))
    &&& if flush {
        n > 0 && before.registered_all(registrations.take(n - 1), now).register_fills(threshold)
    } else {
        &&& n == registrations.len()
        &&& n > 0 ==> !before.registered_all(
            registrations.take(n - 1),
            now,
        ).register_fills(threshold)
    }
}

/// A new timer gets an identifier that no other timer has.
pub proof fn law_identifiers_are_new<C>(state: ActorState<C>)
    requires
        state.consistent(),
    ensures
        !state.known(state.next_id),
        forall|i: int|
            0 <= i < state.started.len() ==> (#[trigger] state.started[i]).timer_id
                != state.next_id,
{
}

/// The cancellation of a timer that was not passed on yet undoes its
/// registration: the task never hears of it.
pub proof fn law_early_cancellation_undoes_registration<C>(
    state: ActorState<C>,
    registration: TimerRegistration<TimeoutEvent, C>,
    now: u64,
)
    requires
        state.consistent(),
        state.next_id < u64::MAX,
    ensures
        ({
            let after = state.registered(registration, now).cancelled(state.next_id);
            &&& after.buffered == state.buffered
            &&& after.active == state.active
            &&& after.cancelling == state.cancelling
            &&& !after.known(state.next_id)
            &&& after.optimized == state.optimized + 1
        }),
{
    assert(!state.known(state.next_id));
    let after = state.registered(registration, now).cancelled(state.next_id);
    assert(after.buffered =~= state.buffered);
}

/// A timer can be cancelled once, whether it waits or the task has it already. A
/// second cancellation changes nothing.
pub proof fn law_timer_is_cancelled_once<C>(state: ActorState<C>, id: ActorTimerId)
    requires
        state.consistent(),
    ensures
        !state.cancelled(id).cancellable(id),
        state.cancelled(id).cancelled(id) == state.cancelled(id),
        !state.cancellable(id) ==> state.cancelled(id) == state,
        state.cancelled(id).cancel_requests == state.cancel_requests + (if state.cancellable(id) {
            1int
        } else {
            0int
        }),
{
    if state.buffered.contains_key(id) {
        assert(state.buffered.dom().contains(id));
        assert(!state.active.dom().contains(id));
    }
}

/// After timers were cancelled one by one, none of them can be cancelled any
/// more, and the others can be as before.
pub proof fn law_cancelled_timers_are_closed<C>(state: ActorState<C>, ids: Seq<ActorTimerId>)
    requires
        state.consistent(),
    ensures
        state.cancelled_all(ids).consistent(),
        forall|id: ActorTimerId| #[trigger]
            state.cancelled_all(ids).cancellable(id) <==> state.cancellable(id) && !ids.contains(
                id,
            ),
    decreases ids.len(),
{
    if ids.len() > 0 {
        let front = ids.drop_last();
        let last = ids.last();
        law_cancelled_timers_are_closed(state, front);
        let middle = state.cancelled_all(front);
        lemma_cancelled(middle, last);
        law_timer_is_cancelled_once(middle, last);
        assert(front.push(last) =~= ids);
        assert forall|id: ActorTimerId| #[trigger]
            state.cancelled_all(ids).cancellable(id) <==> state.cancellable(id) && !ids.contains(
                id,
            ) by {
            vstd::seq_lib::lemma_seq_contains_after_push(front, last, id);
            assert(middle.cancellable(id) <==> state.cancellable(id) && !front.contains(id));
        }
    }
}

/// Each timer counts once, however often it is named: as many timers are
/// cancelled as there are among `ids` that can be.
pub proof fn law_each_timer_counts_once<C>(state: ActorState<C>, ids: Seq<ActorTimerId>)
    requires
        state.consistent(),
    ensures
        state.cancel_count(ids) == ids.to_set().filter(
            |id: ActorTimerId| state.cancellable(id),
        ).len(),
        state.cancelled_all(ids).cancel_requests == state.cancel_requests + state.cancel_count(ids),
    decreases ids.len(),
{
    let open = |id: ActorTimerId| state.cancellable(id);
    if ids.len() > 0 {
        let front = ids.drop_last();
        let last = ids.last();
        law_each_timer_counts_once(state, front);
        law_cancelled_timers_are_closed(state, front);
        let middle = state.cancelled_all(front);
        law_timer_is_cancelled_once(middle, last);
        assert(front.push(last) =~= ids);
        assert(ids.to_set() =~= front.to_set().insert(last)) by {
            assert forall|id: ActorTimerId| ids.to_set().contains(id)
                == front.to_set().insert(last).contains(id) by {
                vstd::seq_lib::lemma_seq_contains_after_push(front, last, id);
            }
        }
        vstd::seq_lib::seq_to_set_is_finite(front);
        front.to_set().lemma_len_filter(open);
        let before = front.to_set().filter(open);
        let after = ids.to_set().filter(open);
        if middle.cancellable(last) {
            assert(after =~= before.insert(last));
            assert(!before.contains(last));
        } else {
            assert(after =~= before);
        }
    } else {
        assert(ids.to_set().filter(open) =~= Set::empty());
    }
}

/// Where every one of `ids` can be cancelled and none occurs twice, all of them
/// are cancelled.
pub proof fn law_all_named_timers_are_cancelled<C>(state: ActorState<C>, ids: Seq<ActorTimerId>)
    requires
        state.consistent(),
        ids.no_duplicates(),
        forall|i: int| 0 <= i < ids.len() ==> state.cancellable(#[trigger] ids[i]),
    ensures
        state.cancel_count(ids) == ids.len(),
{
    law_each_timer_counts_once(state, ids);
    ids.unique_seq_to_set();
    assert(ids.to_set().filter(|id: ActorTimerId| state.cancellable(id)) =~= ids.to_set());
}

/// Where the task has taken the whole batch, every timer that was passed on is
/// active under its own entry.
pub proof fn law_accepted_batch_is_active<C>(state: ActorState<C>, entries: Seq<u64>)
    requires
        state.consistent(),
        entries.len() >= state.started.len(),
    ensures
        forall|i: int|
            0 <= i < state.started.len() ==> {
                let timer = #[trigger] state.started[i];
                &&& state.answered(entries).active.contains_key(timer.timer_id)
                &&& state.answered(entries).active[timer.timer_id] == (ActiveTimer {
                    entry_id: entries[i],
                    connection_id: timer.connection_id,
                    timeout_event: timer.timeout_event,
                })
            },
        forall|id: ActorTimerId| #[trigger]
            state.active.contains_key(id) ==> state.answered(entries).active.contains_key(id)
                && state.answered(entries).active[id] == state.active[id],
{
    lemma_with_answers(state, entries, state.started.len() as int);
    assert(state.started.take(state.started.len() as int) =~= state.started);
}

proof fn lemma_with_answers<C>(state: ActorState<C>, entries: Seq<u64>, n: int)
    requires
        state.consistent(),
        0 <= n <= state.started.len() <= entries.len(),
    ensures
        ({
            let active = with_answers(state.active, state.started.take(n), entries);
            &&& forall|i: int|
                0 <= i < n ==> {
                    let timer = #[trigger] state.started[i];
                    &&& active.contains_key(timer.timer_id)
                    &&& active[timer.timer_id] == (ActiveTimer {
                        entry_id: entries[i],
                        connection_id: timer.connection_id,
                        timeout_event: timer.timeout_event,
                    })
                }
            &&& forall|id: ActorTimerId| #[trigger]
                state.active.contains_key(id) ==> active.contains_key(id) && active[id]
                    == state.active[id]
        }),
    decreases n,
{
    if n > 0 {
        lemma_with_answers(state, entries, n - 1);
        assert(state.started.take(n).drop_last() =~= state.started.take(n - 1));
        let last = state.started[n - 1];
        assert(!state.known(last.timer_id));
    }
}

/// Once the task has carried out the cancellations that were passed on, their
/// timers are gone.
pub proof fn law_withdrawn_timers_are_gone<C>(state: ActorState<C>, id: ActorTimerId)
    requires
        state.consistent(),
        state.withdrawn.contains(id),
    ensures
        state.known(id),
        !state.withdrawn_done().known(id),
{
    assert(state.withdrawn.to_set().contains(id));
    assert(state.active.dom().contains(id));
    assert(!state.buffered.dom().contains(id));
}

} // verus!
