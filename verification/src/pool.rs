//! The workers of one supervisor and the choice among them.
//!
//! A pool is built in one piece from the outcome of every spawn: one failure
//! and there is no pool. Afterwards it only ever hands out workers whose
//! health is `Ready`. A worker that dies fails its operations and is never
//! chosen again.

use vstd::prelude::*;
use crate::channel::{
    ids_after, ids_without, routing_of, slots_after, Channel, Routed, Slot,
};
use crate::envelope::{Envelope, EnvelopeView};
use crate::handshake::{HandshakeFailure, HandshakeState};
use crate::stream::StreamSession;

verus! {

/// How a worker is doing.
#[derive(Debug, Clone, Copy, PartialEq, Eq, Structural)]
pub enum Health {
    /// Spawned, handshake not finished.
    Connecting,
    /// Takes requests.
    Ready,
    /// Alive but not to be given new requests.
    Degraded,
    /// Gone for good.
    Dead,
}

/// How the pool chooses among its ready workers.
#[derive(Debug, Clone, Copy, PartialEq, Eq, Structural)]
pub enum SelectionPolicy {
    /// Each in turn.
    RoundRobin,
    /// The one with the fewest operations in flight.
    LeastInFlight,
}

/// How the spawn of one worker ended.
#[derive(Debug, Clone, Copy, PartialEq, Eq, Structural)]
pub enum SpawnOutcome {
    /// The process runs; `handshake` is where its handshake stood at the deadline.
    Started { process_id: u32, handshake: HandshakeState },
    /// The process could not be launched.
    LaunchFailed,
    /// The process ran but its own setup failed.
    SetupFailed,
}

/// Why no pool was built.
#[derive(Debug, Clone, Copy, PartialEq, Eq, Structural)]
pub enum PoolSpawnError {
    /// Worker number `worker` could not be launched.
    LaunchFailed { worker: usize },
    /// Worker number `worker` did not finish its handshake.
    HandshakeFailed { worker: usize, reason: HandshakeFailure },
    /// Worker number `worker` failed its own setup.
    SetupFailed { worker: usize },
}

/// Why no operation was started.
#[derive(Debug, Clone, Copy, PartialEq, Eq, Structural)]
pub enum StartError {
    /// No worker of the pool is ready.
    NoReadyWorker,
    /// The chosen worker's connection has used every correlation id.
    IdsExhausted { worker: usize },
}

/// An operation in flight: the worker it runs on and its id on that connection.
#[derive(Debug, Clone, Copy, PartialEq, Eq, Structural)]
pub struct Ticket {
    pub worker: usize,
    pub correlation_id: u64,
}

/// One spawned worker: its process, its connection's table and its health.
#[derive(Debug)]
pub struct WorkerHandle {
    process_id: u32,
    health: Health,
    channel: Channel,
}

/// A worker as a mathematical value.
pub struct WorkerView {
    pub process_id: u32,
    pub health: Health,
    /// The slots that wait on its connection, by correlation id.
    pub slots: Map<u64, Slot>,
    /// The correlation ids in flight on its connection, oldest first.
    pub ids: Seq<u64>,
    /// The id its next operation will get.
    pub next_id: u64,
    /// Whether its connection is closed.
    pub closed: bool,
}

impl View for WorkerHandle {
    type V = WorkerView;

    closed spec fn view(&self) -> WorkerView {
        WorkerView {
            process_id: self.process_id,
            health: self.health,
            slots: self.channel.slots(),
            ids: self.channel.ids(),
            next_id: self.channel.next_id(),
            closed: self.channel.is_closed(),
        }
    }
}

impl WorkerHandle {
    /// What holds of every handle: its table is in order, and its connection
    /// is closed exactly when the worker is dead.
    pub closed spec fn well_formed(&self) -> bool {
        &&& self.channel.well_formed()
        &&& self.health == Health::Dead <==> self.channel.is_closed()
    }

    /// The id of the worker's process.
    pub fn process_id(&self) -> (id: u32)
        ensures
            id == self@.process_id,
    {
        self.process_id
    }

    /// How the worker is doing.
    pub fn health(&self) -> (health: Health)
        ensures
            health == self@.health,
    {
        self.health
    }

    /// How many operations the worker has in flight.
    pub fn in_flight(&self) -> (count: usize)
        ensures
            count == self@.ids.len(),
    {
        self.channel.in_flight()
    }
}

/// The position of worker `i` in the round that starts at `cursor`.
pub open spec fn turn(i: int, cursor: int, len: int) -> int {
    if i >= cursor {
        i - cursor
    } else {
        i + len - cursor
    }
}

/// Whether `chosen` is the ready worker whose turn comes first from `cursor` on.
pub open spec fn is_next_in_turn(workers: Seq<WorkerView>, cursor: int, chosen: int) -> bool {
    &&& 0 <= chosen < workers.len()
    &&& workers[chosen].health == Health::Ready
    &&& forall|j: int|
        0 <= j < workers.len() && (#[trigger] workers[j]).health == Health::Ready ==> turn(
            chosen,
            cursor,
            workers.len() as int,
        ) <= turn(j, cursor, workers.len() as int)
}

/// Whether `chosen` is the ready worker with the fewest operations in flight,
/// the first of them where several have as few.
pub open spec fn is_least_loaded(workers: Seq<WorkerView>, chosen: int) -> bool {
    &&& 0 <= chosen < workers.len()
    &&& workers[chosen].health == Health::Ready
    &&& forall|j: int|
        0 <= j < workers.len() && (#[trigger] workers[j]).health == Health::Ready
            ==> workers[chosen].ids.len() <= workers[j].ids.len()
    &&& forall|j: int|
        0 <= j < chosen && (#[trigger] workers[j]).health == Health::Ready
            ==> workers[chosen].ids.len() < workers[j].ids.len()
}

/// Whether some worker is ready.
pub open spec fn some_worker_ready(workers: Seq<WorkerView>) -> bool {
    exists|i: int| 0 <= i < workers.len() && (#[trigger] workers[i]).health == Health::Ready
}

/// Whether `chosen` is the worker that `policy` picks.
pub open spec fn is_choice(
    workers: Seq<WorkerView>,
    policy: SelectionPolicy,
    cursor: int,
    chosen: int,
) -> bool {
    match policy {
        SelectionPolicy::RoundRobin => is_next_in_turn(workers, cursor, chosen),
        SelectionPolicy::LeastInFlight => is_least_loaded(workers, chosen),
    }
}

/// The cursor after worker `chosen` was picked: round-robin moves on to the
/// worker behind it, least-in-flight keeps no turn.
pub open spec fn cursor_after(policy: SelectionPolicy, cursor: int, len: int, chosen: int) -> int {
    match policy {
        SelectionPolicy::RoundRobin => if chosen + 1 >= len {
            0
        } else {
            chosen + 1
        },
        SelectionPolicy::LeastInFlight => cursor,
    }
}

/// Whether spawn outcome `outcome` gives a usable worker.
pub open spec fn is_usable(outcome: SpawnOutcome) -> bool {
    outcome matches SpawnOutcome::Started { handshake, .. } && handshake is Ready
}

/// The error that the failed spawn `outcome` of worker number `worker` stands for.
///
/// A handshake that had not finished at the deadline has timed out.
pub open spec fn failure_of(worker: usize, outcome: SpawnOutcome) -> PoolSpawnError {
    match outcome {
        SpawnOutcome::LaunchFailed => PoolSpawnError::LaunchFailed { worker },
        SpawnOutcome::SetupFailed => PoolSpawnError::SetupFailed { worker },
        SpawnOutcome::Started { handshake, .. } => match handshake {
            HandshakeState::Failed { reason } => PoolSpawnError::HandshakeFailed { worker, reason },
            _ => PoolSpawnError::HandshakeFailed { worker, reason: HandshakeFailure::TimedOut },
        },
    }
}

/// The worker that the usable spawn `outcome` gives: ready, with nothing in flight.
pub open spec fn fresh_worker(outcome: SpawnOutcome) -> WorkerView {
    WorkerView {
        process_id: outcome->process_id,
        health: Health::Ready,
        slots: Map::empty(),
        ids: Seq::empty(),
        next_id: 1,
        closed: false,
    }
}

/// The workers of one supervisor.
#[derive(Debug)]
pub struct Pool {
    workers: Vec<WorkerHandle>,
    policy: SelectionPolicy,
    cursor: usize,
}

/// A pool as a mathematical value.
pub struct PoolView {
    pub workers: Seq<WorkerView>,
    pub policy: SelectionPolicy,
    /// The worker whose turn is next under round-robin.
    pub cursor: nat,
}

impl View for Pool {
    type V = PoolView;

    closed spec fn view(&self) -> PoolView {
        PoolView {
            workers: Seq::new(self.workers@.len(), |i: int| self.workers@[i]@),
            policy: self.policy,
            cursor: self.cursor as nat,
        }
    }
}

impl Pool {
    /// What holds of every pool: each handle is in order, and the cursor
    /// points at a worker, or at 0 in an empty pool.
    pub closed spec fn well_formed(&self) -> bool {
        &&& forall|i: int| 0 <= i < self.workers@.len() ==> (#[trigger] self.workers@[i]).well_formed()
        &&& self.cursor == 0 || self.cursor < self.workers@.len()
    }

    /// Of every pool: the cursor points at a worker, or at 0 in an empty
    /// pool, and a worker's connection is closed exactly when the worker is dead.
    pub proof fn lemma_view_is_well_formed(&self)
        requires
            self.well_formed(),
        ensures
            self@.cursor == 0 || self@.cursor < self@.workers.len(),
            forall|i: int|
                0 <= i < self@.workers.len() ==> ((#[trigger] self@.workers[i]).health
                    == Health::Dead <==> self@.workers[i].closed),
    {
        assert forall|i: int| 0 <= i < self@.workers.len() implies ((
        #[trigger] self@.workers[i]).health == Health::Dead <==> self@.workers[i].closed) by {
            assert(self.workers@[i].well_formed());
        }
    }

    /// Builds the pool from the outcome of every spawn, in order.
    ///
    /// There is a pool exactly when every worker started and finished its
    /// handshake as `Ready`; then every worker of it is ready with nothing in
    /// flight. Otherwise the error names the first worker that failed, and no
    /// part of a pool is handed back.
    pub fn assemble(outcomes: &Vec<SpawnOutcome>, policy: SelectionPolicy) -> (built: Result<
        Pool,
        PoolSpawnError,
    >)
        ensures
            (forall|i: int| 0 <= i < outcomes@.len() ==> is_usable(#[trigger] outcomes@[i]))
                ==> built is Ok,
            built matches Ok(pool) ==> {
                &&& pool.well_formed()
                &&& pool@.policy == policy
                &&& pool@.cursor == 0
                &&& pool@.workers.len() == outcomes@.len()
                &&& forall|i: int|
                    0 <= i < outcomes@.len() ==> is_usable(#[trigger] outcomes@[i])
                        && pool@.workers[i] == fresh_worker(outcomes@[i])
            },
            built matches Err(error) ==> exists|first: int|
                {
                    &&& 0 <= first < outcomes@.len()
                    &&& !is_usable(#[trigger] outcomes@[first])
                    &&& forall|i: int| 0 <= i < first ==> is_usable(#[trigger] outcomes@[i])
                    &&& error == failure_of(first as usize, outcomes@[first])
                },
    {
        let mut workers: Vec<WorkerHandle> = Vec::new();
        let mut at: usize = 0;
        while at < outcomes.len()
            invariant
                at <= outcomes@.len(),
                workers@.len() == at,
                forall|i: int| 0 <= i < at ==> is_usable(#[trigger] outcomes@[i]),
                forall|i: int| 0 <= i < at ==> (#[trigger] workers@[i]).well_formed(),
                forall|i: int| 0 <= i < at ==> (#[trigger] workers@[i])@ == fresh_worker(outcomes@[i]),
            decreases outcomes@.len() - at,
        {
            let outcome = outcomes[at];
            let process_id: u32 = match outcome {
                SpawnOutcome::Started { process_id, handshake } => match handshake {
                    HandshakeState::Ready { .. } => process_id,
                    HandshakeState::Failed { reason } => {
                        return Err(PoolSpawnError::HandshakeFailed { worker: at, reason });
                    },
                    _ => {
                        return Err(
                            PoolSpawnError::HandshakeFailed {
                                worker: at,
                                reason: HandshakeFailure::TimedOut,
                            },
                        );
                    },
                },
                SpawnOutcome::LaunchFailed => {
                    return Err(PoolSpawnError::LaunchFailed { worker: at });
                },
                SpawnOutcome::SetupFailed => {
                    return Err(PoolSpawnError::SetupFailed { worker: at });
                },
            };
            let handle = WorkerHandle { process_id, health: Health::Ready, channel: Channel::new() };
            assert(handle@ == fresh_worker(outcome));
            workers.push(handle);
            at = at + 1;
        }
        let pool = Pool { workers, policy, cursor: 0 };
        assert forall|i: int| 0 <= i < outcomes@.len() implies pool@.workers[i] == fresh_worker(
            #[trigger] outcomes@[i],
        ) by {
            assert(pool.workers@[i]@ == fresh_worker(outcomes@[i]));
        }
        Ok(pool)
    }

    /// How many workers the pool has, dead ones included.
    pub fn size(&self) -> (size: usize)
        ensures
            size == self@.workers.len(),
    {
        self.workers.len()
    }

    /// The policy the pool chooses by.
    pub fn policy(&self) -> (policy: SelectionPolicy)
        ensures
            policy == self@.policy,
    {
        self.policy
    }

    /// The handle of worker `worker`; `None` where the pool has no such worker.
    pub fn worker(&self, worker: usize) -> (handle: Option<&WorkerHandle>)
        ensures
            handle is Some == (worker < self@.workers.len()),
            handle matches Some(found) ==> found@ == self@.workers[worker as int],
    {
        if worker < self.workers.len() {
            Some(&self.workers[worker])
        } else {
            None
        }
    }

    /// How worker `worker` is doing; `None` where the pool has no such worker.
    pub fn health_of(&self, worker: usize) -> (health: Option<Health>)
        ensures
            health == if worker < self@.workers.len() {
                Some(self@.workers[worker as int].health)
            } else {
                None
            },
    {
        if worker < self.workers.len() {
            Some(self.workers[worker].health)
        } else {
            None
        }
    }

    /// How many operations worker `worker` has in flight; `None` where the
    /// pool has no such worker.
    pub fn in_flight_of(&self, worker: usize) -> (count: Option<usize>)
        ensures
            count == if worker < self@.workers.len() {
                Some(self@.workers[worker as int].ids.len() as usize)
            } else {
                None
            },
    {
        if worker < self.workers.len() {
            Some(self.workers[worker].in_flight())
        } else {
            None
        }
    }

    /// The ready worker whose turn comes first from the cursor on.
    fn next_in_turn(&self) -> (chosen: Option<usize>)
        requires
            self.well_formed(),
        ensures
            chosen is Some <==> some_worker_ready(self@.workers),
            chosen matches Some(i) ==> is_next_in_turn(self@.workers, self@.cursor as int, i as int),
    {
        let len: usize = self.workers.len();
        let cursor: usize = self.cursor;
        let mut at: usize = cursor;
        while at < len
            invariant
                cursor <= at <= len,
                len == self.workers@.len(),
                cursor == self.cursor,
                forall|j: int| cursor <= j < at ==> (#[trigger] self@.workers[j]).health != Health::Ready,
            decreases len - at,
        {
            if self.workers[at].health() == Health::Ready {
                assert(self@.workers[at as int].health == Health::Ready);
                return Some(at);
            }
            at = at + 1;
        }
        let mut at: usize = 0;
        while at < cursor
            invariant
                at <= cursor,
                cursor == 0 || cursor < len,
                len == self.workers@.len(),
                cursor == self.cursor,
                forall|j: int| cursor <= j < len ==> (#[trigger] self@.workers[j]).health != Health::Ready,
                forall|j: int| 0 <= j < at ==> (#[trigger] self@.workers[j]).health != Health::Ready,
            decreases cursor - at,
        {
            if self.workers[at].health() == Health::Ready {
                assert(self@.workers[at as int].health == Health::Ready);
                return Some(at);
            }
            at = at + 1;
        }
        None
    }

    /// The ready worker with the fewest operations in flight, the first of
    /// them where several have as few.
    fn least_loaded(&self) -> (chosen: Option<usize>)
        requires
            self.well_formed(),
        ensures
            chosen is Some <==> some_worker_ready(self@.workers),
            chosen matches Some(i) ==> is_least_loaded(self@.workers, i as int),
    {
        let len: usize = self.workers.len();
        let mut best: Option<usize> = None;
        let mut best_load: usize = 0;
        let mut at: usize = 0;
        while at < len
            invariant
                at <= len,
                len == self.workers@.len(),
                best is None ==> forall|j: int|
                    0 <= j < at ==> (#[trigger] self@.workers[j]).health != Health::Ready,
                best matches Some(i) ==> {
                    &&& i < at
                    &&& self@.workers[i as int].health == Health::Ready
                    &&& best_load == self@.workers[i as int].ids.len()
                    &&& forall|j: int|
                        0 <= j < at && (#[trigger] self@.workers[j]).health == Health::Ready
                            ==> best_load <= self@.workers[j].ids.len()
                    &&& forall|j: int|
                        0 <= j < i && (#[trigger] self@.workers[j]).health == Health::Ready
                            ==> best_load < self@.workers[j].ids.len()
                },
            decreases len - at,
        {
            if self.workers[at].health() == Health::Ready {
                let load: usize = self.workers[at].in_flight();
                assert(self@.workers[at as int].health == Health::Ready);
                assert(load == self@.workers[at as int].ids.len());
                let better: bool = match best {
                    None => true,
                    Some(_) => load < best_load,
                };
                if better {
                    best = Some(at);
                    best_load = load;
                }
            }
            at = at + 1;
        }
        best
    }

    /// Chooses the worker for the next operation.
    ///
    /// `None` exactly when no worker is ready. Otherwise the worker chosen is
    /// ready and is the one the policy picks: under round-robin the first
    /// ready worker from the cursor on, after which the cursor moves behind
    /// it; under least-in-flight the ready worker with the fewest operations
    /// in flight, the first of them on a tie. Nothing else changes.
    pub fn select(&mut self) -> (chosen: Option<usize>)
        requires
            old(self).well_formed(),
        ensures
            final(self).well_formed(),
            final(self)@.workers == old(self)@.workers,
            final(self)@.policy == old(self)@.policy,
            chosen is Some <==> some_worker_ready(old(self)@.workers),
            chosen is None ==> final(self)@.cursor == old(self)@.cursor,
            chosen matches Some(i) ==> {
                &&& i < old(self)@.workers.len()
                &&& old(self)@.workers[i as int].health == Health::Ready
                &&& is_choice(
                    old(self)@.workers,
                    old(self)@.policy,
                    old(self)@.cursor as int,
                    i as int,
                )
                &&& final(self)@.cursor == cursor_after(
                    old(self)@.policy,
                    old(self)@.cursor as int,
                    old(self)@.workers.len() as int,
                    i as int,
                )
            },
    {
        match self.policy {
            SelectionPolicy::LeastInFlight => self.least_loaded(),
            SelectionPolicy::RoundRobin => {
                let chosen = self.next_in_turn();
                match chosen {
                    Some(i) => {
                        let len: usize = self.workers.len();
                        assert(self@.workers.len() == len);
                        self.cursor = if i + 1 >= len {
                            0
                        } else {
                            i + 1
                        };
                    },
                    None => {},
                }
                chosen
            },
        }
    }
}

/// The worker once an operation with the slot `slot` has been opened on it.
pub open spec fn with_operation(worker: WorkerView, slot: Slot) -> WorkerView {
    WorkerView {
        slots: worker.slots.insert(worker.next_id, slot),
        ids: worker.ids.push(worker.next_id),
        next_id: (worker.next_id + 1) as u64,
        ..worker
    }
}

/// The worker once `frame` has been routed on its connection.
pub open spec fn with_frame_routed(worker: WorkerView, frame: EnvelopeView) -> WorkerView {
    WorkerView {
        slots: slots_after(worker.slots, frame),
        ids: ids_after(worker.ids, worker.slots, frame),
        ..worker
    }
}

/// The worker once the operation under `id` has been given up.
pub open spec fn without_operation(worker: WorkerView, id: u64) -> WorkerView {
    WorkerView { slots: worker.slots.remove(id), ids: ids_without(worker.ids, id), ..worker }
}

/// The worker once it has died: nothing waits on it any more.
pub open spec fn when_dead(worker: WorkerView) -> WorkerView {
    WorkerView {
        health: Health::Dead,
        slots: Map::empty(),
        ids: Seq::empty(),
        closed: true,
        ..worker
    }
}

/// The slot that a fresh operation of the given kind gets under the id `id`.
pub open spec fn fresh_slot(streaming: bool, id: u64) -> Slot {
    if streaming {
        Slot::Stream {
            session: StreamSession { correlation_id: id, next_expected_index: 0, terminal: false },
        }
    } else {
        Slot::Ask
    }
}

impl WorkerHandle {
    /// Opens an operation on this worker's connection.
    fn open(&mut self, streaming: bool) -> (opened: Option<u64>)
        requires
            old(self).well_formed(),
            old(self)@.health != Health::Dead,
        ensures
            final(self).well_formed(),
            old(self)@.next_id == u64::MAX ==> opened is None && final(self)@ == old(self)@,
            old(self)@.next_id < u64::MAX ==> opened == Some(old(self)@.next_id) && final(self)@
                == with_operation(old(self)@, fresh_slot(streaming, old(self)@.next_id)),
    {
        let opened = if streaming {
            self.channel.open_stream()
        } else {
            self.channel.open_ask()
        };
        match opened {
            Ok(id) => Some(id),
            Err(_) => None,
        }
    }

    /// Routes a frame on this worker's connection.
    fn route(&mut self, frame: &Envelope) -> (routed: Routed)
        requires
            old(self).well_formed(),
        ensures
            final(self).well_formed(),
            routed@ == routing_of(old(self)@.slots, frame@),
            final(self)@ == with_frame_routed(old(self)@, frame@),
    {
        self.channel.route(frame)
    }

    /// Gives up an operation on this worker's connection.
    fn cancel(&mut self, correlation_id: u64) -> (cancelled: bool)
        requires
            old(self).well_formed(),
        ensures
            final(self).well_formed(),
            cancelled == old(self)@.slots.contains_key(correlation_id),
            final(self)@ == without_operation(old(self)@, correlation_id),
    {
        self.channel.cancel(correlation_id)
    }

    /// The worker is gone: closes its connection and hands out what was in flight.
    fn die(&mut self) -> (failed: Vec<u64>)
        requires
            old(self).well_formed(),
        ensures
            final(self).well_formed(),
            failed@ == old(self)@.ids,
            final(self)@ == when_dead(old(self)@),
    {
        self.health = Health::Dead;
        self.channel.close()
    }
}

impl Pool {
    /// Starts an operation on the worker that the policy picks.
    fn begin(&mut self, streaming: bool) -> (started: Result<Ticket, StartError>)
        requires
            old(self).well_formed(),
        ensures
            final(self).well_formed(),
            final(self)@.policy == old(self)@.policy,
            final(self)@.workers.len() == old(self)@.workers.len(),
            !some_worker_ready(old(self)@.workers) <==> started == Err::<Ticket, StartError>(
                StartError::NoReadyWorker,
            ),
            started == Err::<Ticket, StartError>(StartError::NoReadyWorker) ==> final(self)@
                == old(self)@,
            started matches Err(StartError::IdsExhausted { worker }) ==> {
                &&& is_choice(
                    old(self)@.workers,
                    old(self)@.policy,
                    old(self)@.cursor as int,
                    worker as int,
                )
                &&& old(self)@.workers[worker as int].next_id == u64::MAX
                &&& final(self)@.workers == old(self)@.workers
            },
            started matches Ok(ticket) ==> {
                &&& is_choice(
                    old(self)@.workers,
                    old(self)@.policy,
                    old(self)@.cursor as int,
                    ticket.worker as int,
                )
                &&& old(self)@.workers[ticket.worker as int].next_id < u64::MAX
                &&& ticket.correlation_id == old(self)@.workers[ticket.worker as int].next_id
                &&& final(self)@.workers == old(self)@.workers.update(
                    ticket.worker as int,
                    with_operation(
                        old(self)@.workers[ticket.worker as int],
                        fresh_slot(streaming, ticket.correlation_id),
                    ),
                )
            },
            started matches Ok(ticket) ==> final(self)@.cursor == cursor_after(
                old(self)@.policy,
                old(self)@.cursor as int,
                old(self)@.workers.len() as int,
                ticket.worker as int,
            ),
    {
        let worker: usize = match self.select() {
            Some(worker) => worker,
            None => {
                return Err(StartError::NoReadyWorker);
            },
        };
        let ghost chosen_before = self.workers@;
        assert(self.workers@[worker as int].well_formed());
        assert(self.workers@[worker as int]@ == old(self)@.workers[worker as int]);
        let opened = self.workers[worker].open(streaming);
        proof {
            assert forall|i: int| 0 <= i < self.workers@.len() implies (
            #[trigger] self.workers@[i]).well_formed() by {
                if i != worker {
                    assert(self.workers@[i] == chosen_before[i]);
                }
            }
        }
        match opened {
            Some(correlation_id) => {
                assert(self@.workers =~= old(self)@.workers.update(
                    worker as int,
                    with_operation(
                        old(self)@.workers[worker as int],
                        fresh_slot(streaming, correlation_id),
                    ),
                ));
                Ok(Ticket { worker, correlation_id })
            },
            None => {
                assert(self@.workers =~= old(self)@.workers);
                Err(StartError::IdsExhausted { worker })
            },
        }
    }
}

impl Pool {
    /// Starts an `ask` on the worker that the policy picks.
    ///
    /// Fails with `NoReadyWorker` exactly when no worker is ready, and then
    /// changes nothing. Otherwise the policy's choice is made, and the
    /// operation gets the next correlation id of the chosen worker's
    /// connection and a slot that waits for one reply; it fails with
    /// `IdsExhausted` only where that connection has no id left.
    pub fn begin_ask(&mut self) -> (started: Result<Ticket, StartError>)
        requires
            old(self).well_formed(),
        ensures
            final(self).well_formed(),
            final(self)@.policy == old(self)@.policy,
            final(self)@.workers.len() == old(self)@.workers.len(),
            !some_worker_ready(old(self)@.workers) <==> started == Err::<Ticket, StartError>(
                StartError::NoReadyWorker,
            ),
            started == Err::<Ticket, StartError>(StartError::NoReadyWorker) ==> final(self)@
                == old(self)@,
            started matches Err(StartError::IdsExhausted { worker }) ==> {
                &&& is_choice(
                    old(self)@.workers,
                    old(self)@.policy,
                    old(self)@.cursor as int,
                    worker as int,
                )
                &&& old(self)@.workers[worker as int].next_id == u64::MAX
                &&& final(self)@.workers == old(self)@.workers
            },
            started matches Ok(ticket) ==> {
                &&& is_choice(
                    old(self)@.workers,
                    old(self)@.policy,
                    old(self)@.cursor as int,
                    ticket.worker as int,
                )
                &&& old(self)@.workers[ticket.worker as int].next_id < u64::MAX
                &&& ticket.correlation_id == old(self)@.workers[ticket.worker as int].next_id
                &&& final(self)@.workers == old(self)@.workers.update(
                    ticket.worker as int,
                    with_operation(
                        old(self)@.workers[ticket.worker as int],
                        fresh_slot(false, ticket.correlation_id),
                    ),
                )
            },
            started matches Ok(ticket) ==> final(self)@.cursor == cursor_after(
                old(self)@.policy,
                old(self)@.cursor as int,
                old(self)@.workers.len() as int,
                ticket.worker as int,
            ),
    {
        self.begin(false)
    }

    /// Starts a stream on the worker that the policy picks.
    ///
    /// As `begin_ask`, but the slot holds a fresh session that expects item 0.
    pub fn begin_stream(&mut self) -> (started: Result<Ticket, StartError>)
        requires
            old(self).well_formed(),
        ensures
            final(self).well_formed(),
            final(self)@.policy == old(self)@.policy,
            final(self)@.workers.len() == old(self)@.workers.len(),
            !some_worker_ready(old(self)@.workers) <==> started == Err::<Ticket, StartError>(
                StartError::NoReadyWorker,
            ),
            started == Err::<Ticket, StartError>(StartError::NoReadyWorker) ==> final(self)@
                == old(self)@,
            started matches Err(StartError::IdsExhausted { worker }) ==> {
                &&& is_choice(
                    old(self)@.workers,
                    old(self)@.policy,
                    old(self)@.cursor as int,
                    worker as int,
                )
                &&& old(self)@.workers[worker as int].next_id == u64::MAX
                &&& final(self)@.workers == old(self)@.workers
            },
            started matches Ok(ticket) ==> {
                &&& is_choice(
                    old(self)@.workers,
                    old(self)@.policy,
                    old(self)@.cursor as int,
                    ticket.worker as int,
                )
                &&& old(self)@.workers[ticket.worker as int].next_id < u64::MAX
                &&& ticket.correlation_id == old(self)@.workers[ticket.worker as int].next_id
                &&& final(self)@.workers == old(self)@.workers.update(
                    ticket.worker as int,
                    with_operation(
                        old(self)@.workers[ticket.worker as int],
                        fresh_slot(true, ticket.correlation_id),
                    ),
                )
            },
            started matches Ok(ticket) ==> final(self)@.cursor == cursor_after(
                old(self)@.policy,
                old(self)@.cursor as int,
                old(self)@.workers.len() as int,
                ticket.worker as int,
            ),
    {
        self.begin(true)
    }

    /// Routes a frame that arrived from worker `worker`.
    ///
    /// `None`, and no change, where the pool has no such worker. Otherwise the
    /// frame is routed on that worker's connection and no other worker changes.
    pub fn deliver(&mut self, worker: usize, frame: &Envelope) -> (routed: Option<Routed>)
        requires
            old(self).well_formed(),
        ensures
            final(self).well_formed(),
            final(self)@.policy == old(self)@.policy,
            final(self)@.cursor == old(self)@.cursor,
            worker >= old(self)@.workers.len() ==> routed is None && final(self)@ == old(self)@,
            worker < old(self)@.workers.len() ==> {
                &&& routed is Some
                &&& routed->Some_0@ == routing_of(old(self)@.workers[worker as int].slots, frame@)
                &&& final(self)@.workers == old(self)@.workers.update(
                    worker as int,
                    with_frame_routed(old(self)@.workers[worker as int], frame@),
                )
            },
    {
        if worker >= self.workers.len() {
            return None;
        }
        let ghost before = self.workers@;
        assert(self.workers@[worker as int].well_formed());
        let routed = self.workers[worker].route(frame);
        proof {
            assert forall|i: int| 0 <= i < self.workers@.len() implies (
            #[trigger] self.workers@[i]).well_formed() by {
                if i != worker {
                    assert(self.workers@[i] == before[i]);
                }
            }
            assert(self@.workers =~= old(self)@.workers.update(
                worker as int,
                with_frame_routed(old(self)@.workers[worker as int], frame@),
            ));
        }
        Some(routed)
    }

    /// Gives up the operation `correlation_id` on worker `worker`, as a caller
    /// whose deadline has passed does: a reply that still arrives is dropped.
    ///
    /// Returns whether the operation was in flight; where it was not, or the
    /// pool has no such worker, nothing changes.
    pub fn cancel(&mut self, worker: usize, correlation_id: u64) -> (cancelled: bool)
        requires
            old(self).well_formed(),
        ensures
            final(self).well_formed(),
            final(self)@.policy == old(self)@.policy,
            final(self)@.cursor == old(self)@.cursor,
            cancelled == (worker < old(self)@.workers.len()
                && old(self)@.workers[worker as int].slots.contains_key(correlation_id)),
            worker >= old(self)@.workers.len() ==> final(self)@ == old(self)@,
            worker < old(self)@.workers.len() ==> final(self)@.workers == old(self)@.workers.update(
                worker as int,
                without_operation(old(self)@.workers[worker as int], correlation_id),
            ),
    {
        if worker >= self.workers.len() {
            return false;
        }
        let ghost before = self.workers@;
        assert(self.workers@[worker as int].well_formed());
        let cancelled = self.workers[worker].cancel(correlation_id);
        proof {
            assert forall|i: int| 0 <= i < self.workers@.len() implies (
            #[trigger] self.workers@[i]).well_formed() by {
                if i != worker {
                    assert(self.workers@[i] == before[i]);
                }
            }
            assert(self@.workers =~= old(self)@.workers.update(
                worker as int,
                without_operation(old(self)@.workers[worker as int], correlation_id),
            ));
        }
        cancelled
    }

    /// Worker `worker` is gone: it is marked `Dead`, its connection is closed,
    /// and every operation that was in flight on it is handed back to be
    /// failed, oldest first. The worker is never chosen again.
    ///
    /// Where the pool has no such worker, nothing changes and nothing is handed back.
    pub fn worker_died(&mut self, worker: usize) -> (failed: Vec<u64>)
        requires
            old(self).well_formed(),
        ensures
            final(self).well_formed(),
            final(self)@.policy == old(self)@.policy,
            final(self)@.cursor == old(self)@.cursor,
            worker >= old(self)@.workers.len() ==> failed@ == Seq::<u64>::empty() && final(self)@
                == old(self)@,
            worker < old(self)@.workers.len() ==> {
                &&& failed@ == old(self)@.workers[worker as int].ids
                &&& final(self)@.workers == old(self)@.workers.update(
                    worker as int,
                    when_dead(old(self)@.workers[worker as int]),
                )
            },
    {
        if worker >= self.workers.len() {
            return Vec::new();
        }
        let ghost before = self.workers@;
        assert(self.workers@[worker as int].well_formed());
        let failed = self.workers[worker].die();
        proof {
            assert forall|i: int| 0 <= i < self.workers@.len() implies (
            #[trigger] self.workers@[i]).well_formed() by {
                if i != worker {
                    assert(self.workers@[i] == before[i]);
                }
            }
            assert(self@.workers =~= old(self)@.workers.update(
                worker as int,
                when_dead(old(self)@.workers[worker as int]),
            ));
        }
        failed
    }

    /// Sets the health of a living worker to `health`.
    ///
    /// Returns `false`, and changes nothing, where the pool has no such
    /// worker, where the worker is dead, or where `health` is `Dead`: a dead
    /// worker stays dead, and a worker dies only through `worker_died`.
    pub fn set_health(&mut self, worker: usize, health: Health) -> (changed: bool)
        requires
            old(self).well_formed(),
        ensures
            final(self).well_formed(),
            final(self)@.policy == old(self)@.policy,
            final(self)@.cursor == old(self)@.cursor,
            changed == (worker < old(self)@.workers.len() && old(self)@.workers[worker as int].health
                != Health::Dead && health != Health::Dead),
            !changed ==> final(self)@ == old(self)@,
            changed ==> final(self)@.workers == old(self)@.workers.update(
                worker as int,
                WorkerView { health, ..old(self)@.workers[worker as int] },
            ),
    {
        if worker >= self.workers.len() {
            return false;
        }
        assert(self.workers@[worker as int].well_formed());
        match self.workers[worker].health {
            Health::Dead => {
                return false;
            },
            _ => {},
        }
        match health {
            Health::Dead => {
                return false;
            },
            _ => {},
        }
        let ghost before = self.workers@;
        self.workers[worker].health = health;
        proof {
            assert forall|i: int| 0 <= i < self.workers@.len() implies (
            #[trigger] self.workers@[i]).well_formed() by {
                if i != worker {
                    assert(self.workers@[i] == before[i]);
                }
            }
            assert(self@.workers =~= old(self)@.workers.update(
                worker as int,
                WorkerView { health, ..old(self)@.workers[worker as int] },
            ));
        }
        true
    }
}

/// The pool never hands out a worker that is not ready: whatever the policy
/// and wherever the cursor stands, the choice is a ready worker, and a dead
/// worker is never the choice.
pub proof fn lemma_choice_is_ready(
    workers: Seq<WorkerView>,
    policy: SelectionPolicy,
    cursor: int,
    chosen: int,
)
    requires
        is_choice(workers, policy, cursor, chosen),
    ensures
        0 <= chosen < workers.len(),
        workers[chosen].health == Health::Ready,
        workers[chosen].health != Health::Dead,
{
}

/// The policy's choice is one worker: no two workers are both the choice.
pub proof fn lemma_choice_is_unique(
    workers: Seq<WorkerView>,
    policy: SelectionPolicy,
    cursor: int,
    first: int,
    second: int,
)
    requires
        0 <= cursor <= workers.len(),
        is_choice(workers, policy, cursor, first),
        is_choice(workers, policy, cursor, second),
    ensures
        first == second,
{
    assert(workers[first].health == Health::Ready);
    assert(workers[second].health == Health::Ready);
}

/// With every worker ready, round-robin takes the worker at the cursor and
/// moves the cursor one on, back to the first worker behind the last: the
/// cursor is a plain counter modulo the size of the pool.
pub proof fn lemma_round_robin_is_a_counter(workers: Seq<WorkerView>, cursor: int)
    requires
        0 <= cursor < workers.len(),
        forall|i: int| 0 <= i < workers.len() ==> (#[trigger] workers[i]).health == Health::Ready,
    ensures
        is_choice(workers, SelectionPolicy::RoundRobin, cursor, cursor),
        cursor_after(SelectionPolicy::RoundRobin, cursor, workers.len() as int, cursor) == (cursor
            + 1) % (workers.len() as int),
{
    let len = workers.len() as int;
    if cursor + 1 < len {
        assert((cursor + 1) % len == cursor + 1) by (nonlinear_arith)
            requires
                0 <= cursor + 1 < len,
        ;
    } else {
        assert((cursor + 1) % len == 0) by (nonlinear_arith)
            requires
                cursor + 1 == len,
                len > 0,
        ;
    }
}

} // verus!
