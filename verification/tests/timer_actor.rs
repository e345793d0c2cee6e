//! The timer actor, together with the task that it passes its batches on to.

use reliable_udp::timer::actor::{
    ActorStep, ActorTimerId, TimerActor, TimerActorCommand, TimerActorConfig, TimerActorResponse,
    TimerActorStats,
};
use reliable_udp::timer::event::TimeoutEvent;
use reliable_udp::timer::task::commands::TimerError;
use reliable_udp::timer::task::global::GlobalTimerTask;
use reliable_udp::timer::task::types::TimerRegistration;

const MS: u64 = 1_000_000;
const SECOND: u64 = 1000 * MS;

struct World {
    actor: TimerActor<()>,
    task: GlobalTimerTask<TimeoutEvent, ()>,
    reachable: bool,
    flushes: usize,
    now: u64,
}

impl World {
    fn new(config: TimerActorConfig) -> Self {
        World {
            actor: TimerActor::new(config, 0),
            task: GlobalTimerTask::new(0),
            reachable: true,
            flushes: 0,
            now: 0,
        }
    }

    fn flush(&mut self) {
        self.flushes += 1;
        if let Some(batch) = self.actor.begin_register_flush() {
            let answer = if self.reachable {
                Ok(self.task.batch_register_timers(batch, self.now))
            } else {
                Err(TimerError::TaskShutdown)
            };
            self.actor.complete_register_flush(answer);
        }
        if let Some(batch) = self.actor.begin_cancel_flush() {
            let answer = if self.reachable {
                Ok(self.task.batch_cancel_timers(batch))
            } else {
                Err(TimerError::TaskShutdown)
            };
            self.actor.complete_cancel_flush(answer);
        }
        self.actor.finish_flush(self.now);
    }

    fn send(&mut self, command: TimerActorCommand<()>) -> TimerActorResponse {
        assert!(self.actor.can_handle(&command));
        let mut step = self.actor.handle_command(command, self.now);
        loop {
            let work = match step {
                ActorStep::Reply(response) => return response,
                ActorStep::Go(work) => work,
                ActorStep::Flush(work) => {
                    self.flush();
                    work
                }
                ActorStep::Stop => panic!("the actor has ended"),
            };
            assert!(self.actor.can_resume(&work));
            step = self.actor.resume(work, self.now);
        }
    }

    fn register(&mut self, connection_id: u32, event: TimeoutEvent) -> ActorTimerId {
        let registration = TimerRegistration::new(connection_id, 30 * SECOND, event, ());
        self.registered(TimerActorCommand::RegisterTimer { registration })
    }

    fn registered(&mut self, command: TimerActorCommand<()>) -> ActorTimerId {
        match self.send(command) {
            TimerActorResponse::Registered(Ok(id)) => id,
            other => panic!("unexpected answer {:?}", other),
        }
    }

    fn cancel(&mut self, timer_id: ActorTimerId) -> bool {
        match self.send(TimerActorCommand::CancelTimerById { timer_id }) {
            TimerActorResponse::Cancelled(cancelled) => cancelled,
            other => panic!("unexpected answer {:?}", other),
        }
    }

    fn count(&mut self, command: TimerActorCommand<()>) -> usize {
        match self.send(command) {
            TimerActorResponse::CancelledCount(count) => count,
            other => panic!("unexpected answer {:?}", other),
        }
    }

    fn stats(&mut self) -> TimerActorStats {
        match self.send(TimerActorCommand::GetStats) {
            TimerActorResponse::Stats(stats) => stats,
            other => panic!("unexpected answer {:?}", other),
        }
    }

    fn knows(&mut self, timer_id: ActorTimerId) -> bool {
        matches!(
            self.send(TimerActorCommand::QueryTimer { timer_id }),
            TimerActorResponse::Timer(Some(_))
        )
    }
}

fn config(batch_threshold: usize, flush_interval: u64) -> TimerActorConfig {
    TimerActorConfig { batch_threshold, flush_interval }
}

#[test]
fn test_timer_actor_basic_operations() {
    let mut world = World::new(TimerActorConfig::default());
    let stats = world.stats();
    assert_eq!(stats.register_buffer_size, 0);
    assert_eq!(stats.cancel_buffer_size, 0);
    assert_eq!(stats, TimerActorStats::default());
    assert_eq!(TimerActorConfig::default(), config(4096, 100 * MS));
}

#[test]
fn test_timer_actor_buffering() {
    let mut world = World::new(config(2, 50 * MS));
    world.register(1, TimeoutEvent::IdleTimeout);
    assert_eq!(world.stats().register_buffer_size, 1);
    assert_eq!(world.flushes, 0);
    world.register(2, TimeoutEvent::IdleTimeout);
    assert_eq!(world.flushes, 1);
    let stats = world.stats();
    assert_eq!(stats.register_buffer_size, 0);
    assert_eq!(stats.active_timer_count, 2);
    assert_eq!(world.task.get_stats().total_timers, 2);
}

#[test]
fn test_timer_actor_optimization() {
    let mut world = World::new(config(5, 100 * MS));
    world.register(123, TimeoutEvent::IdleTimeout);
    let cancelled_count = world.count(TimerActorCommand::CancelTimer {
        connection_id: 123,
        timeout_event: TimeoutEvent::IdleTimeout,
    });
    assert!(cancelled_count > 0);
    assert_eq!(world.stats().optimized_operations, 1);
    world.flush();
    assert_eq!(world.task.get_stats().total_timers, 0);
}

#[test]
fn test_timer_actor_batch_optimization() {
    let mut world = World::new(config(10, 200 * MS));
    let registrations = (0..5)
        .map(|i| TimerRegistration::new(100 + i, 30 * SECOND, TimeoutEvent::IdleTimeout, ()))
        .collect();
    match world.send(TimerActorCommand::BatchRegisterTimers { registrations }) {
        TimerActorResponse::BatchRegistered(Ok(ids)) => assert_eq!(ids, vec![1, 2, 3, 4, 5]),
        other => panic!("unexpected answer {:?}", other),
    }
    let entries = vec![
        (100, TimeoutEvent::IdleTimeout),
        (101, TimeoutEvent::IdleTimeout),
        (102, TimeoutEvent::IdleTimeout),
        (999, TimeoutEvent::IdleTimeout),
        (998, TimeoutEvent::IdleTimeout),
    ];
    let cancelled_count = world.count(TimerActorCommand::BatchCancelTimers { entries });
    assert_eq!(cancelled_count, 3);
    let stats = world.stats();
    assert!(stats.optimized_operations >= 3);
    assert_eq!(stats.register_buffer_size, 2);
}

#[test]
fn test_timer_actor_query_timer_info() {
    let mut world = World::new(TimerActorConfig::default());
    world.now = 77;
    let timer_id = world.register(100, TimeoutEvent::IdleTimeout);
    let info = match world.send(TimerActorCommand::QueryTimer { timer_id }) {
        TimerActorResponse::Timer(info) => info.unwrap(),
        other => panic!("unexpected answer {:?}", other),
    };
    assert_eq!(info.timer_id, timer_id);
    assert_eq!(info.connection_id, 100);
    assert_eq!(info.timeout_event, TimeoutEvent::IdleTimeout);
    assert_eq!(info.delay, 30 * SECOND);
    assert_eq!(info.created_at, 77);
    assert!(info.in_buffer);
    assert!(info.entry_id.is_none());
    assert!(!world.knows(999999));
    world.flush();
    world.now = 99;
    let info = world.actor.query_timer_info(timer_id, world.now).unwrap();
    assert!(!info.in_buffer);
    assert_eq!(info.entry_id, Some(1));
    assert_eq!((info.delay, info.created_at), (0, 99));
}

#[test]
fn test_timer_actor_specialized_timers() {
    let mut world = World::new(TimerActorConfig::default());
    let path_timer_id = world.registered(TimerActorCommand::RegisterPathValidationTimer {
        connection_id: 100,
        path_id: 1,
        delay: 500 * MS,
        callback: (),
    });
    assert!(path_timer_id > 0);
    let retx_timer_id = world.registered(TimerActorCommand::RegisterRetransmissionTimer {
        connection_id: 100,
        packet_id: 12345,
        delay: 100 * MS,
        callback: (),
    });
    assert!(retx_timer_id > 0);
    let fin_timer_id = world.registered(TimerActorCommand::RegisterFinProcessingTimer {
        connection_id: 100,
        delay: 50 * MS,
        callback: (),
    });
    assert!(fin_timer_id > 0);
    assert_ne!(path_timer_id, retx_timer_id);
    assert_ne!(retx_timer_id, fin_timer_id);
    assert_ne!(path_timer_id, fin_timer_id);
    assert!(world.stats().total_register_requests > 0);
    let packet_timer_id = world.registered(TimerActorCommand::RegisterPacketRetransmissionTimer {
        connection_id: 100,
        sequence_number: 8,
        delay: 10 * MS,
        callback: (),
    });
    assert_eq!(packet_timer_id, 5);
    assert_eq!(
        world.actor.query_timer_info(packet_timer_id, 0).unwrap().timeout_event,
        TimeoutEvent::PacketRetransmissionTimeout { sequence_number: 8, timer_id: 4 }
    );
}

#[test]
fn test_timer_actor_cancel_by_id() {
    let mut world = World::new(TimerActorConfig::default());
    let timer_ids: Vec<ActorTimerId> =
        (0..3).map(|i| world.register(100 + i, TimeoutEvent::IdleTimeout)).collect();
    assert!(world.cancel(timer_ids[0]));
    assert!(world.cancel(timer_ids[1]));
    assert!(!world.cancel(timer_ids[0]));
    assert!(!world.cancel(999999));
}

#[test]
fn test_timer_actor_batch_cancel_by_ids() {
    let mut world = World::new(TimerActorConfig::default());
    let timer_ids: Vec<ActorTimerId> =
        (0..5).map(|i| world.register(100 + i, TimeoutEvent::IdleTimeout)).collect();
    let mut cancel_ids = timer_ids[0..3].to_vec();
    cancel_ids.push(999999);
    cancel_ids.push(999998);
    let cancelled_count =
        world.count(TimerActorCommand::BatchCancelTimersByIds { timer_ids: cancel_ids });
    assert_eq!(cancelled_count, 3);
    assert!(world.knows(timer_ids[3]));
}

#[test]
fn test_timer_actor_connection_cleanup() {
    let mut world = World::new(TimerActorConfig::default());
    let connection_id = 100;
    let timer_ids = vec![
        world.register(connection_id, TimeoutEvent::IdleTimeout),
        world.registered(TimerActorCommand::RegisterPathValidationTimer {
            connection_id,
            path_id: 1,
            delay: 500 * MS,
            callback: (),
        }),
        world.registered(TimerActorCommand::RegisterRetransmissionTimer {
            connection_id,
            packet_id: 12345,
            delay: 100 * MS,
            callback: (),
        }),
    ];
    for &timer_id in &timer_ids {
        assert!(world.knows(timer_id));
    }
    let cancelled_count = world.count(TimerActorCommand::CancelAllTimers { connection_id });
    assert_eq!(cancelled_count, 3);
    for &timer_id in &timer_ids {
        assert!(!world.knows(timer_id));
    }
}

#[test]
fn test_timer_actor_auto_flush() {
    let mut world = World::new(config(100, 50 * MS));
    for i in 0..3 {
        world.register(100 + i, TimeoutEvent::IdleTimeout);
    }
    assert!(!world.actor.should_auto_flush(49 * MS));
    world.now = 50 * MS;
    assert!(world.actor.should_auto_flush(world.now));
    world.flush();
    world.actor.note_auto_flush();
    let stats = world.stats();
    assert!(stats.auto_flush_count > 0 || stats.register_buffer_size == 0);
    assert_eq!((stats.auto_flush_count, stats.register_buffer_size), (1, 0));
    assert!(!world.actor.should_auto_flush(SECOND));
}

#[test]
fn test_timer_actor_manual_flush() {
    let mut world = World::new(config(100, 60 * SECOND));
    for i in 0..3 {
        world.register(100 + i, TimeoutEvent::IdleTimeout);
    }
    assert!(world.stats().register_buffer_size > 0);
    assert!(matches!(
        world.send(TimerActorCommand::FlushBuffers),
        TimerActorResponse::Flushed
    ));
    assert_eq!(world.stats().register_buffer_size, 0);
    assert!(!world.actor.has_buffered());
}

#[test]
fn test_timer_actor_statistics_tracking() {
    let mut world = World::new(TimerActorConfig::default());
    let initial_stats = world.stats();
    assert_eq!(initial_stats.total_register_requests, 0);
    assert_eq!(initial_stats.total_cancel_requests, 0);
    assert_eq!(initial_stats.optimized_operations, 0);
    let timer_ids: Vec<ActorTimerId> =
        (0..5).map(|i| world.register(100 + i, TimeoutEvent::IdleTimeout)).collect();
    let registrations = (0..3)
        .map(|i| TimerRegistration::new(200 + i, 20 * SECOND, TimeoutEvent::PathValidationTimeout, ()))
        .collect();
    world.send(TimerActorCommand::BatchRegisterTimers { registrations });
    assert!(world.cancel(timer_ids[0]));
    let cancelled2 = world.count(TimerActorCommand::CancelAllTimers { connection_id: 101 });
    assert!(cancelled2 > 0);
    let final_stats = world.stats();
    assert!(final_stats.total_register_requests >= 8);
    assert!(final_stats.total_cancel_requests > 0);
    assert_eq!(final_stats.total_register_requests, 8);
    assert_eq!(final_stats.total_cancel_requests, 2);
}

#[test]
fn cancellation_of_an_active_timer_reaches_the_task() {
    let mut world = World::new(config(100, SECOND));
    let first = world.register(1, TimeoutEvent::IdleTimeout);
    let second = world.register(1, TimeoutEvent::ConnectionTimeout);
    world.flush();
    assert_eq!(world.task.get_stats().total_timers, 2);
    assert!(world.cancel(first));
    assert_eq!(world.stats().cancel_buffer_size, 1);
    assert!(world.knows(first));
    world.flush();
    assert_eq!(world.task.get_stats().total_timers, 1);
    assert!(!world.knows(first));
    assert!(world.knows(second));
    assert_eq!(world.actor.timers_of_connection(1), vec![second]);
    assert!(world.actor.timers_of_type(1, TimeoutEvent::IdleTimeout).is_empty());
}

#[test]
fn a_timer_is_cancelled_once() {
    let mut world = World::new(config(100, SECOND));
    let waiting = world.register(1, TimeoutEvent::IdleTimeout);
    assert!(world.cancel(waiting));
    assert!(!world.cancel(waiting));
    let active = world.register(1, TimeoutEvent::IdleTimeout);
    let other = world.register(1, TimeoutEvent::IdleTimeout);
    world.flush();
    assert!(world.cancel(active));
    assert!(!world.cancel(active));
    assert_eq!(world.stats().cancel_buffer_size, 1);
    assert_eq!(world.stats().total_cancel_requests, 2);
    // The timer that is cancelled already counts no more, the other one once.
    let timer_ids = vec![active, other, other];
    assert_eq!(world.count(TimerActorCommand::BatchCancelTimersByIds { timer_ids }), 1);
    let all = TimerActorCommand::CancelAllTimers { connection_id: 1 };
    assert_eq!(world.count(all), 0);
    assert_eq!(world.stats().total_cancel_requests, 3);
    world.flush();
    assert!(!world.cancel(active));
    assert_eq!(world.task.get_stats().total_timers, 0);
}

#[test]
fn full_buffers_are_passed_on_in_the_middle_of_a_batch() {
    let mut world = World::new(config(2, SECOND));
    let registrations =
        (0..5).map(|i| TimerRegistration::new(i, SECOND, TimeoutEvent::IdleTimeout, ())).collect();
    match world.send(TimerActorCommand::BatchRegisterTimers { registrations }) {
        TimerActorResponse::BatchRegistered(Ok(ids)) => assert_eq!(ids, vec![1, 2, 3, 4, 5]),
        other => panic!("unexpected answer {:?}", other),
    }
    assert_eq!(world.flushes, 2);
    assert_eq!(world.stats().register_buffer_size, 1);
    let count = world.count(TimerActorCommand::BatchCancelTimersByIds { timer_ids: vec![1, 2, 5, 3] });
    assert_eq!(count, 4);
    // Two cancellations fill the buffer; the fifth timer is passed on with them.
    assert_eq!(world.flushes, 4);
    assert_eq!(world.stats().active_timer_count, 1);
    assert_eq!(world.stats().cancel_buffer_size, 0);
    assert_eq!(world.task.get_stats().total_timers, 1);
}

#[test]
fn unreachable_task() {
    let mut world = World::new(config(100, SECOND));
    let kept = world.register(1, TimeoutEvent::IdleTimeout);
    world.flush();
    let lost = world.register(1, TimeoutEvent::IdleTimeout);
    assert!(world.cancel(kept));
    world.reachable = false;
    world.flush();
    // What could not be registered is forgotten, what could not be cancelled stays.
    assert!(!world.knows(lost));
    assert!(world.knows(kept));
    assert_eq!(world.stats().cancel_buffer_size, 0);
    assert!(matches!(world.actor.handle_command(TimerActorCommand::Shutdown, 0), ActorStep::Stop));
}
