//! The dispatch loop of a worker, one frame at a time.
//!
//! For every inbound request the loop spawns a task at once and goes on
//! reading: it never waits for a task to finish. It counts the tasks in
//! flight, and it keeps the table of the callbacks that its tasks have issued
//! and whose answers are still to come.

use vstd::prelude::*;
use crate::callback::{
    callback_frame, callback_frame_of, outcome_of_payload, read_callback_reply, CallbackError,
};
use crate::channel::{
    ids_after, ids_without, routing_of, slots_after, Channel, ChannelError, Routed, RoutedView, Slot,
};
use crate::envelope::{Envelope, EnvelopeKind, EnvelopeView};
use crate::request::{decode_request, request_of_payload, Request, RequestView};
use crate::tracker::{after_event, ConcurrencyTracker, TaskEvent};

verus! {

/// What the dispatch loop does with an inbound frame.
#[derive(Debug)]
pub enum Inbound {
    /// Spawn a task for the request at once; it has been counted in.
    Spawn { correlation_id: u64, request: Request },
    /// The request cannot be read: answer it with a failure.
    Malformed { correlation_id: u64 },
    /// The count of tasks is at the top of its range: answer with a failure.
    Overloaded { correlation_id: u64 },
    /// The answer to a callback has come: the task that waits under the id
    /// resumes with it.
    Resume { correlation_id: u64, outcome: Result<Vec<u8>, CallbackError> },
    /// The frame asks nothing of a worker.
    Ignore,
}

/// A decision on an inbound frame as a mathematical value.
pub enum InboundView {
    Spawn { correlation_id: u64, request: RequestView },
    Malformed { correlation_id: u64 },
    Overloaded { correlation_id: u64 },
    Resume { correlation_id: u64, outcome: Result<Seq<u8>, CallbackError> },
    Ignore,
}

impl View for Inbound {
    type V = InboundView;

    open spec fn view(&self) -> InboundView {
        match *self {
            Inbound::Spawn { correlation_id, request } => InboundView::Spawn {
                correlation_id,
                request: request@,
            },
            Inbound::Malformed { correlation_id } => InboundView::Malformed { correlation_id },
            Inbound::Overloaded { correlation_id } => InboundView::Overloaded { correlation_id },
            Inbound::Resume { correlation_id, outcome } => InboundView::Resume {
                correlation_id,
                outcome: match outcome {
                    Ok(answer) => Ok(answer@),
                    Err(error) => Err(error),
                },
            },
            Inbound::Ignore => InboundView::Ignore,
        }
    }
}

/// The state of a dispatch loop as a mathematical value.
pub struct DispatcherView {
    /// The callbacks whose answers are still to come, by correlation id.
    pub slots: Map<u64, Slot>,
    /// Their ids, oldest first.
    pub ids: Seq<u64>,
    /// The id that the next callback will get.
    pub next_id: u64,
    /// Whether the supervisor has hung up.
    pub closed: bool,
    /// The number of tasks in flight.
    pub in_flight: nat,
}

/// What the loop does with `frame`, given the callbacks that wait and the
/// tasks in flight.
pub open spec fn inbound_of(state: DispatcherView, frame: EnvelopeView) -> InboundView {
    match routing_of(state.slots, frame) {
        RoutedView::Request { correlation_id, payload } => match request_of_payload(payload) {
            None => InboundView::Malformed { correlation_id },
            Some(request) => if state.in_flight < usize::MAX {
                InboundView::Spawn { correlation_id, request }
            } else {
                InboundView::Overloaded { correlation_id }
            },
        },
        RoutedView::Resume { correlation_id, payload } => InboundView::Resume {
            correlation_id,
            outcome: outcome_of_payload(payload),
        },
        _ => InboundView::Ignore,
    }
}

/// The state of the loop once `frame` has been taken: a spawned task is
/// counted in, an answered callback has left the table.
pub open spec fn state_after_frame(state: DispatcherView, frame: EnvelopeView) -> DispatcherView {
    DispatcherView {
        slots: slots_after(state.slots, frame),
        ids: ids_after(state.ids, state.slots, frame),
        in_flight: if inbound_of(state, frame) is Spawn {
            state.in_flight + 1
        } else {
            state.in_flight
        },
        ..state
    }
}

/// The dispatch loop of one worker.
#[derive(Debug)]
pub struct Dispatcher {
    table: Channel,
    tracker: ConcurrencyTracker,
}

impl View for Dispatcher {
    type V = DispatcherView;

    closed spec fn view(&self) -> DispatcherView {
        DispatcherView {
            slots: self.table.slots(),
            ids: self.table.ids(),
            next_id: self.table.next_id(),
            closed: self.table.is_closed(),
            in_flight: self.tracker@,
        }
    }
}

impl Dispatcher {
    /// What holds of every dispatch loop: its table of callbacks is in order.
    pub closed spec fn well_formed(&self) -> bool {
        self.table.well_formed()
    }

    /// A dispatch loop with no task in flight and no callback under way.
    pub fn new() -> (dispatcher: Self)
        ensures
            dispatcher.well_formed(),
            dispatcher@ == (DispatcherView {
                slots: Map::empty(),
                ids: Seq::empty(),
                next_id: 1,
                closed: false,
                in_flight: 0,
            }),
    {
        Dispatcher { table: Channel::new(), tracker: ConcurrencyTracker::new() }
    }

    /// The number of tasks in flight.
    pub fn in_flight(&self) -> (count: usize)
        ensures
            count == self@.in_flight,
    {
        self.tracker.in_flight()
    }

    /// The number of callbacks whose answers are still to come.
    pub fn callbacks_under_way(&self) -> (count: usize)
        ensures
            count == self@.ids.len(),
    {
        self.table.in_flight()
    }

    /// Decides what to do with an inbound frame.
    ///
    /// A request that can be read is to be spawned at once and is counted in.
    /// The answer to a callback that waits is handed to its task and leaves
    /// the table. Any other frame is ignored and changes nothing.
    pub fn on_frame(&mut self, frame: &Envelope) -> (inbound: Inbound)
        requires
            old(self).well_formed(),
        ensures
            final(self).well_formed(),
            inbound@ == inbound_of(old(self)@, frame@),
            final(self)@ == state_after_frame(old(self)@, frame@),
    {
        match self.table.route(frame) {
            Routed::Request { correlation_id, payload } => match decode_request(&payload) {
                None => Inbound::Malformed { correlation_id },
                Some(request) => {
                    if self.tracker.begin() {
                        Inbound::Spawn { correlation_id, request }
                    } else {
                        Inbound::Overloaded { correlation_id }
                    }
                },
            },
            Routed::Resume { correlation_id, payload } => Inbound::Resume {
                correlation_id,
                outcome: read_callback_reply(&payload),
            },
            _ => Inbound::Ignore,
        }
    }

    /// Counts a task out once its reply has been written.
    pub fn task_done(&mut self)
        requires
            old(self).well_formed(),
        ensures
            final(self).well_formed(),
            final(self)@ == (DispatcherView {
                in_flight: after_event(old(self)@.in_flight, TaskEvent::Completed),
                ..old(self)@
            }),
    {
        self.tracker.finish();
    }

    /// Issues a callback for a task: gives it a fresh correlation id, under
    /// which the answer will be awaited, and makes the frame to send.
    ///
    /// Fails once the supervisor has hung up, and once every id has been used.
    pub fn issue_callback(&mut self, type_id: u64, body: &Vec<u8>) -> (issued: Result<
        Envelope,
        ChannelError,
    >)
        requires
            old(self).well_formed(),
        ensures
            final(self).well_formed(),
            old(self)@.closed ==> issued == Err::<Envelope, ChannelError>(ChannelError::Closed)
                && final(self)@ == old(self)@,
            !old(self)@.closed && old(self)@.next_id == u64::MAX ==> issued == Err::<
                Envelope,
                ChannelError,
            >(ChannelError::IdsExhausted) && final(self)@ == old(self)@,
            !old(self)@.closed && old(self)@.next_id < u64::MAX ==> {
                &&& issued is Ok
                &&& issued->Ok_0@ == callback_frame_of(old(self)@.next_id, type_id, body@)
                &&& final(self)@ == (DispatcherView {
                    slots: old(self)@.slots.insert(old(self)@.next_id, Slot::Callback),
                    ids: old(self)@.ids.push(old(self)@.next_id),
                    next_id: (old(self)@.next_id + 1) as u64,
                    ..old(self)@
                })
            },
    {
        match self.table.open_callback() {
            Ok(correlation_id) => Ok(callback_frame(correlation_id, type_id, body)),
            Err(error) => Err(error),
        }
    }

    /// Gives up a callback whose answer did not come in time: an answer that
    /// still arrives is ignored. Returns whether the callback was under way.
    pub fn abandon_callback(&mut self, correlation_id: u64) -> (abandoned: bool)
        requires
            old(self).well_formed(),
        ensures
            final(self).well_formed(),
            abandoned == old(self)@.slots.contains_key(correlation_id),
            final(self)@ == (DispatcherView {
                slots: old(self)@.slots.remove(correlation_id),
                ids: ids_without(old(self)@.ids, correlation_id),
                ..old(self)@
            }),
    {
        self.table.cancel(correlation_id)
    }

    /// The supervisor has hung up: every callback under way fails, and none
    /// can be issued any more. Returns the ids of the callbacks to fail,
    /// oldest first.
    pub fn hang_up(&mut self) -> (failed: Vec<u64>)
        requires
            old(self).well_formed(),
        ensures
            final(self).well_formed(),
            failed@ == old(self)@.ids,
            final(self)@ == (DispatcherView {
                slots: Map::empty(),
                ids: Seq::empty(),
                closed: true,
                ..old(self)@
            }),
    {
        self.table.close()
    }
}

/// The loop never waits for a task: whatever is in flight, a request that
/// can be read is spawned, unless the count itself has run out.
pub proof fn lemma_requests_are_spawned_at_once(state: DispatcherView, frame: EnvelopeView)
    requires
        frame.kind == EnvelopeKind::Request,
        request_of_payload(frame.payload) is Some,
        state.in_flight < usize::MAX,
    ensures
        inbound_of(state, frame) == (InboundView::Spawn {
            correlation_id: frame.correlation_id,
            request: request_of_payload(frame.payload)->Some_0,
        }),
        state_after_frame(state, frame).in_flight == state.in_flight + 1,
        state_after_frame(state, frame).slots == state.slots,
{
}

} // verus!
