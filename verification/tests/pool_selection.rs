use kameo_snake_handler::channel::Routed;
use kameo_snake_handler::envelope::{Envelope, EnvelopeKind};
use kameo_snake_handler::handshake::{HandshakeFailure, HandshakeState};
use kameo_snake_handler::pool::{
    Health, Pool, PoolSpawnError, SelectionPolicy, SpawnOutcome, StartError, Ticket,
};

fn started(process_id: u32) -> SpawnOutcome {
    SpawnOutcome::Started { process_id, handshake: HandshakeState::Ready { streaming: true } }
}

fn pool_of(size: u32, policy: SelectionPolicy) -> Pool {
    let outcomes: Vec<SpawnOutcome> = (0..size).map(|n| started(10 + n)).collect();
    Pool::assemble(&outcomes, policy).unwrap()
}

fn reply(correlation_id: u64) -> Envelope {
    Envelope { correlation_id, kind: EnvelopeKind::Reply, payload: vec![] }
}

#[test]
fn assembled_pool_has_every_worker_ready_and_idle() {
    let pool = pool_of(4, SelectionPolicy::RoundRobin);
    assert_eq!(pool.size(), 4);
    assert_eq!(pool.policy(), SelectionPolicy::RoundRobin);
    for worker in 0..4 {
        assert_eq!(pool.health_of(worker), Some(Health::Ready));
        assert_eq!(pool.in_flight_of(worker), Some(0));
    }
    assert_eq!(pool.health_of(4), None);
    assert_eq!(pool.in_flight_of(4), None);
    let third = pool.worker(2).expect("the pool has four workers");
    assert_eq!(third.process_id(), 12);
    assert_eq!(third.health(), Health::Ready);
    assert_eq!(third.in_flight(), 0);
    assert!(pool.worker(4).is_none());
}

#[test]
fn one_failed_spawn_and_there_is_no_pool() {
    let failed = |outcomes: Vec<SpawnOutcome>| {
        Pool::assemble(&outcomes, SelectionPolicy::RoundRobin).err()
    };
    assert_eq!(
        failed(vec![started(1), SpawnOutcome::LaunchFailed, started(3)]),
        Some(PoolSpawnError::LaunchFailed { worker: 1 })
    );
    assert_eq!(
        failed(vec![started(1), started(2), SpawnOutcome::SetupFailed]),
        Some(PoolSpawnError::SetupFailed { worker: 2 })
    );
    let rejected = SpawnOutcome::Started {
        process_id: 5,
        handshake: HandshakeState::Failed { reason: HandshakeFailure::Rejected },
    };
    assert_eq!(
        failed(vec![rejected, SpawnOutcome::LaunchFailed]),
        Some(PoolSpawnError::HandshakeFailed { worker: 0, reason: HandshakeFailure::Rejected })
    );
    let unfinished = SpawnOutcome::Started { process_id: 5, handshake: HandshakeState::AwaitingAck };
    assert_eq!(
        failed(vec![started(1), unfinished]),
        Some(PoolSpawnError::HandshakeFailed { worker: 1, reason: HandshakeFailure::TimedOut })
    );
    assert_eq!(failed(vec![started(1), started(2)]), None);
}

#[test]
fn empty_pool_has_no_ready_worker() {
    let mut pool = Pool::assemble(&vec![], SelectionPolicy::LeastInFlight).unwrap();
    assert_eq!(pool.size(), 0);
    assert_eq!(pool.select(), None);
    assert_eq!(pool.begin_ask(), Err(StartError::NoReadyWorker));
    assert_eq!(pool.begin_stream(), Err(StartError::NoReadyWorker));
}

#[test]
fn round_robin_is_a_counter_modulo_the_size() {
    let mut pool = pool_of(3, SelectionPolicy::RoundRobin);
    let chosen: Vec<usize> = (0..7).map(|_| pool.select().unwrap()).collect();
    assert_eq!(chosen, vec![0, 1, 2, 0, 1, 2, 0]);
}

#[test]
fn round_robin_passes_over_workers_that_are_not_ready() {
    let mut pool = pool_of(4, SelectionPolicy::RoundRobin);
    assert!(pool.set_health(1, Health::Degraded));
    assert!(pool.set_health(2, Health::Connecting));
    let chosen: Vec<usize> = (0..5).map(|_| pool.select().unwrap()).collect();
    assert_eq!(chosen, vec![0, 3, 0, 3, 0]);
    assert!(pool.set_health(1, Health::Ready));
    let chosen: Vec<usize> = (0..4).map(|_| pool.select().unwrap()).collect();
    assert_eq!(chosen, vec![1, 3, 0, 1]);
}

#[test]
fn least_in_flight_takes_the_idlest_and_the_first_on_a_tie() {
    let mut pool = pool_of(3, SelectionPolicy::LeastInFlight);
    let tickets: Vec<Ticket> = (0..4).map(|_| pool.begin_ask().unwrap()).collect();
    let workers: Vec<usize> = tickets.iter().map(|t| t.worker).collect();
    assert_eq!(workers, vec![0, 1, 2, 0]);
    assert_eq!(tickets[3].correlation_id, 2);
    assert!(matches!(pool.deliver(1, &reply(1)), Some(Routed::Fulfil { .. })));
    assert_eq!(pool.in_flight_of(1), Some(0));
    assert_eq!(pool.begin_ask().unwrap(), Ticket { worker: 1, correlation_id: 2 });
    assert_eq!(pool.begin_ask().unwrap().worker, 1);
    assert_eq!(pool.begin_ask().unwrap().worker, 2);
}

#[test]
fn no_ready_worker_starts_nothing() {
    let mut pool = pool_of(2, SelectionPolicy::RoundRobin);
    assert!(pool.set_health(0, Health::Degraded));
    pool.worker_died(1);
    assert_eq!(pool.select(), None);
    assert_eq!(pool.begin_ask(), Err(StartError::NoReadyWorker));
    assert_eq!(pool.in_flight_of(0), Some(0));
}

#[test]
fn dead_worker_stays_dead() {
    let mut pool = pool_of(2, SelectionPolicy::LeastInFlight);
    assert_eq!(pool.worker_died(0), Vec::<u64>::new());
    assert!(!pool.set_health(0, Health::Ready));
    assert!(!pool.set_health(0, Health::Degraded));
    assert_eq!(pool.health_of(0), Some(Health::Dead));
    assert!(!pool.set_health(1, Health::Dead));
    assert_eq!(pool.health_of(1), Some(Health::Ready));
    assert!(!pool.set_health(2, Health::Ready));
    assert_eq!(pool.worker_died(7), Vec::<u64>::new());
}

#[test]
fn frame_from_an_unknown_worker_goes_nowhere() {
    let mut pool = pool_of(1, SelectionPolicy::RoundRobin);
    assert!(pool.deliver(1, &reply(1)).is_none());
    assert!(matches!(pool.deliver(0, &reply(1)), Some(Routed::Dropped { correlation_id: 1 })));
}
