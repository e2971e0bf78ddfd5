//! The correlation table of one connection.
//!
//! Every operation in flight owns a slot under its correlation id. The reader
//! of the connection hands each frame to `route`, which says where it goes and
//! frees the slot once the operation is complete. Completions may arrive in any
//! order: only the correlation id decides who receives what.

use vstd::prelude::*;
use crate::envelope::{Envelope, EnvelopeKind, EnvelopeView};
use crate::stream::{
    item_frame, lemma_item_payload_round_trip, session_after, session_outcome, stream_frames,
    Delivery, DeliveryView, StreamProtocolError, StreamSession,
};
use crate::wire::copy_range;

verus! {

/// What waits under a correlation id.
#[derive(Debug, Clone, Copy, PartialEq, Eq, Structural)]
pub enum Slot {
    /// A caller waits for the single reply to its request.
    Ask,
    /// A reader pulls the items of a stream.
    Stream { session: StreamSession },
    /// A worker task waits for the supervisor's answer to its callback.
    Callback,
}

/// One operation in flight.
#[derive(Debug, Clone, Copy, PartialEq, Eq, Structural)]
pub struct InFlight {
    pub correlation_id: u64,
    pub slot: Slot,
}

/// Why no operation could be opened.
#[derive(Debug, Clone, Copy, PartialEq, Eq, Structural)]
pub enum ChannelError {
    /// The peer is gone.
    Closed,
    /// Every correlation id of this connection has been used.
    IdsExhausted,
}

/// Where a frame goes.
#[derive(Debug, Clone)]
pub enum Routed {
    /// The reply to an `ask`: hand `payload` to the caller that waits under the id.
    Fulfil { correlation_id: u64, payload: Vec<u8> },
    /// The answer to a callback: the worker task that waits under the id resumes.
    Resume { correlation_id: u64, payload: Vec<u8> },
    /// The next value of a stream.
    StreamItem { correlation_id: u64, value: Vec<u8> },
    /// The stream ended normally.
    StreamEnded { correlation_id: u64 },
    /// The producer of the stream failed.
    StreamFailed { correlation_id: u64, reason: Vec<u8> },
    /// The stream broke its rules and was ended.
    StreamViolation { correlation_id: u64, error: StreamProtocolError },
    /// A request to dispatch.
    Request { correlation_id: u64, payload: Vec<u8> },
    /// A callback to hand to its handler.
    Callback { correlation_id: u64, payload: Vec<u8> },
    /// Nobody waits for this frame: it is dropped.
    Dropped { correlation_id: u64 },
    /// A handshake frame on a connection that has finished its handshake.
    Unroutable { kind: EnvelopeKind },
}

/// A routing decision as a mathematical value.
pub enum RoutedView {
    Fulfil { correlation_id: u64, payload: Seq<u8> },
    Resume { correlation_id: u64, payload: Seq<u8> },
    StreamItem { correlation_id: u64, value: Seq<u8> },
    StreamEnded { correlation_id: u64 },
    StreamFailed { correlation_id: u64, reason: Seq<u8> },
    StreamViolation { correlation_id: u64, error: StreamProtocolError },
    Request { correlation_id: u64, payload: Seq<u8> },
    Callback { correlation_id: u64, payload: Seq<u8> },
    Dropped { correlation_id: u64 },
    Unroutable { kind: EnvelopeKind },
}

impl View for Routed {
    type V = RoutedView;

    open spec fn view(&self) -> RoutedView {
        match *self {
            Routed::Fulfil { correlation_id, payload } => RoutedView::Fulfil {
                correlation_id,
                payload: payload@,
            },
            Routed::Resume { correlation_id, payload } => RoutedView::Resume {
                correlation_id,
                payload: payload@,
            },
            Routed::StreamItem { correlation_id, value } => RoutedView::StreamItem {
                correlation_id,
                value: value@,
            },
            Routed::StreamEnded { correlation_id } => RoutedView::StreamEnded { correlation_id },
            Routed::StreamFailed { correlation_id, reason } => RoutedView::StreamFailed {
                correlation_id,
                reason: reason@,
            },
            Routed::StreamViolation { correlation_id, error } => RoutedView::StreamViolation {
                correlation_id,
                error,
            },
            Routed::Request { correlation_id, payload } => RoutedView::Request {
                correlation_id,
                payload: payload@,
            },
            Routed::Callback { correlation_id, payload } => RoutedView::Callback {
                correlation_id,
                payload: payload@,
            },
            Routed::Dropped { correlation_id } => RoutedView::Dropped { correlation_id },
            Routed::Unroutable { kind } => RoutedView::Unroutable { kind },
        }
    }
}

/// Where a stream frame goes, given what the session made of it.
pub open spec fn stream_routing(
    correlation_id: u64,
    outcome: Result<DeliveryView, StreamProtocolError>,
) -> RoutedView {
    match outcome {
        Ok(DeliveryView::Item(value)) => RoutedView::StreamItem { correlation_id, value },
        Ok(DeliveryView::End) => RoutedView::StreamEnded { correlation_id },
        Ok(DeliveryView::Failed(reason)) => RoutedView::StreamFailed { correlation_id, reason },
        Err(error) => RoutedView::StreamViolation { correlation_id, error },
    }
}

/// Where `frame` goes, given the slots that wait.
pub open spec fn routing_of(slots: Map<u64, Slot>, frame: EnvelopeView) -> RoutedView {
    let id = frame.correlation_id;
    match frame.kind {
        EnvelopeKind::Request => RoutedView::Request { correlation_id: id, payload: frame.payload },
        EnvelopeKind::Callback => RoutedView::Callback {
            correlation_id: id,
            payload: frame.payload,
        },
        EnvelopeKind::Reply => if slots.contains_key(id) && slots[id] == Slot::Ask {
            RoutedView::Fulfil { correlation_id: id, payload: frame.payload }
        } else {
            RoutedView::Dropped { correlation_id: id }
        },
        EnvelopeKind::CallbackReply => if slots.contains_key(id) && slots[id] == Slot::Callback {
            RoutedView::Resume { correlation_id: id, payload: frame.payload }
        } else {
            RoutedView::Dropped { correlation_id: id }
        },
        EnvelopeKind::StreamItem | EnvelopeKind::StreamEnd | EnvelopeKind::StreamError => {
            if slots.contains_key(id) && slots[id] is Stream {
                stream_routing(id, session_outcome(slots[id]->session, frame))
            } else {
                RoutedView::Dropped { correlation_id: id }
            }
        },
        EnvelopeKind::HandshakeInit | EnvelopeKind::HandshakeAck => RoutedView::Unroutable {
            kind: frame.kind,
        },
    }
}

/// The slots that wait once `frame` has been routed.
///
/// A reply frees the slot it fulfils; a stream frame moves its session on and
/// frees the slot when the stream has ended; every other frame changes nothing.
pub open spec fn slots_after(slots: Map<u64, Slot>, frame: EnvelopeView) -> Map<u64, Slot> {
    let id = frame.correlation_id;
    match routing_of(slots, frame) {
        RoutedView::Fulfil { .. } | RoutedView::Resume { .. } => slots.remove(id),
        RoutedView::StreamItem { .. }
        | RoutedView::StreamEnded { .. }
        | RoutedView::StreamFailed { .. }
        | RoutedView::StreamViolation { .. } => {
            let after = session_after(slots[id]->session, frame);
            if after.terminal {
                slots.remove(id)
            } else {
                slots.insert(id, Slot::Stream { session: after })
            }
        },
        _ => slots,
    }
}

/// The ids in flight once the operation under `id` has left `ids`, if it was there.
pub open spec fn ids_without(ids: Seq<u64>, id: u64) -> Seq<u64> {
    if ids.contains(id) {
        ids.remove(ids.index_of(id))
    } else {
        ids
    }
}

/// The ids in flight once `frame` has been routed: the operation that `frame`
/// completes has left, every other one keeps its place.
pub open spec fn ids_after(ids: Seq<u64>, slots: Map<u64, Slot>, frame: EnvelopeView) -> Seq<u64> {
    if slots_after(slots, frame).contains_key(frame.correlation_id) {
        ids
    } else {
        ids_without(ids, frame.correlation_id)
    }
}

/// The slots that wait once all of `frames` have been routed, in order.
pub open spec fn slots_after_all(slots: Map<u64, Slot>, frames: Seq<EnvelopeView>) -> Map<
    u64,
    Slot,
>
    decreases frames.len(),
{
    if frames.len() == 0 {
        slots
    } else {
        slots_after(slots_after_all(slots, frames.drop_last()), frames.last())
    }
}

/// Where each of `frames` goes when they are routed in order.
pub open spec fn routings_of(slots: Map<u64, Slot>, frames: Seq<EnvelopeView>) -> Seq<RoutedView>
    decreases frames.len(),
{
    if frames.len() == 0 {
        Seq::empty()
    } else {
        routings_of(slots, frames.drop_last()).push(
            routing_of(slots_after_all(slots, frames.drop_last()), frames.last()),
        )
    }
}

/// Whether some entry of `entries` has the id `id`.
pub open spec fn has_id(entries: Seq<InFlight>, id: u64) -> bool {
    exists|i: int| 0 <= i < entries.len() && (#[trigger] entries[i]).correlation_id == id
}

/// Whether no two entries share an id.
pub open spec fn ids_are_unique(entries: Seq<InFlight>) -> bool {
    forall|i: int, j: int|
        0 <= i < j < entries.len() ==> (#[trigger] entries[i]).correlation_id != (
        #[trigger] entries[j]).correlation_id
}

/// The slots of `entries`, by id.
pub open spec fn slots_of(entries: Seq<InFlight>) -> Map<u64, Slot> {
    Map::new(
        |id: u64| has_id(entries, id),
        |id: u64|
            entries[choose|i: int|
                0 <= i < entries.len() && (#[trigger] entries[i]).correlation_id == id].slot,
    )
}

/// With unique ids, the slot found under an entry's id is that entry's slot.
proof fn lemma_slot_lookup(entries: Seq<InFlight>, at: int)
    requires
        ids_are_unique(entries),
        0 <= at < entries.len(),
    ensures
        slots_of(entries).contains_key(entries[at].correlation_id),
        slots_of(entries)[entries[at].correlation_id] == entries[at].slot,
{
    let id = entries[at].correlation_id;
    assert(has_id(entries, id));
    let found = choose|i: int|
        0 <= i < entries.len() && (#[trigger] entries[i]).correlation_id == id;
    if found < at {
        assert(entries[found].correlation_id != entries[at].correlation_id);
    } else if at < found {
        assert(entries[at].correlation_id != entries[found].correlation_id);
    }
}

/// Adding an entry with a fresh id adds its slot and nothing else.
proof fn lemma_slots_after_push(entries: Seq<InFlight>, entry: InFlight)
    requires
        ids_are_unique(entries),
        !has_id(entries, entry.correlation_id),
    ensures
        ids_are_unique(entries.push(entry)),
        slots_of(entries.push(entry)) == slots_of(entries).insert(entry.correlation_id, entry.slot),
{
    let longer = entries.push(entry);
    assert forall|i: int, j: int| 0 <= i < j < longer.len() implies (#[trigger] longer[i]).correlation_id
        != (#[trigger] longer[j]).correlation_id by {
        if j == entries.len() {
            assert(entries[i] == longer[i]);
        } else {
            assert(entries[i] == longer[i] && entries[j] == longer[j]);
        }
    }
    let expected = slots_of(entries).insert(entry.correlation_id, entry.slot);
    assert forall|id: u64| slots_of(longer).contains_key(id) == expected.contains_key(id) by {
        if has_id(longer, id) {
            let i = choose|i: int|
                0 <= i < longer.len() && (#[trigger] longer[i]).correlation_id == id;
            if i < entries.len() {
                assert(entries[i] == longer[i]);
            }
        }
        if expected.contains_key(id) {
            if id == entry.correlation_id {
                assert(longer[entries.len() as int] == entry);
            } else {
                let i = choose|i: int|
                    0 <= i < entries.len() && (#[trigger] entries[i]).correlation_id == id;
                assert(longer[i] == entries[i]);
            }
        }
    }
    assert forall|id: u64| slots_of(longer).contains_key(id) implies slots_of(longer)[id]
        == expected[id] by {
        let i = choose|i: int| 0 <= i < longer.len() && (#[trigger] longer[i]).correlation_id == id;
        lemma_slot_lookup(longer, i);
        if i < entries.len() {
            assert(entries[i] == longer[i]);
            lemma_slot_lookup(entries, i);
        }
    }
    assert(slots_of(longer) =~= expected);
}

/// Removing an entry removes its slot and nothing else.
proof fn lemma_slots_after_remove(entries: Seq<InFlight>, at: int)
    requires
        ids_are_unique(entries),
        0 <= at < entries.len(),
    ensures
        ids_are_unique(entries.remove(at)),
        slots_of(entries.remove(at)) == slots_of(entries).remove(entries[at].correlation_id),
{
    let shorter = entries.remove(at);
    let gone = entries[at].correlation_id;
    assert forall|i: int| 0 <= i < shorter.len() implies (#[trigger] shorter[i]) == entries[if i
        < at {
        i
    } else {
        i + 1
    }] by {}
    assert forall|i: int, j: int| 0 <= i < j < shorter.len() implies (#[trigger] shorter[i]).correlation_id
        != (#[trigger] shorter[j]).correlation_id by {
        let from_i = if i < at {
            i
        } else {
            i + 1
        };
        let from_j = if j < at {
            j
        } else {
            j + 1
        };
        assert(entries[from_i].correlation_id != entries[from_j].correlation_id);
    }
    let expected = slots_of(entries).remove(gone);
    assert forall|id: u64| slots_of(shorter).contains_key(id) == expected.contains_key(id) by {
        if has_id(shorter, id) {
            let i = choose|i: int|
                0 <= i < shorter.len() && (#[trigger] shorter[i]).correlation_id == id;
            let from = if i < at {
                i
            } else {
                i + 1
            };
            assert(entries[from].correlation_id == id);
            if from < at {
                assert(entries[from].correlation_id != entries[at].correlation_id);
            } else {
                assert(entries[at].correlation_id != entries[from].correlation_id);
            }
        }
        if expected.contains_key(id) {
            let i = choose|i: int|
                0 <= i < entries.len() && (#[trigger] entries[i]).correlation_id == id;
            let to = if i < at {
                i
            } else {
                i - 1
            };
            assert(shorter[to] == entries[i]);
        }
    }
    assert forall|id: u64| slots_of(shorter).contains_key(id) implies slots_of(shorter)[id]
        == expected[id] by {
        let i = choose|i: int|
            0 <= i < shorter.len() && (#[trigger] shorter[i]).correlation_id == id;
        let from = if i < at {
            i
        } else {
            i + 1
        };
        lemma_slot_lookup(shorter, i);
        lemma_slot_lookup(entries, from);
    }
    assert(slots_of(shorter) =~= expected);
}

/// Replacing the slot of an entry replaces it under its id and changes nothing else.
proof fn lemma_slots_after_update(entries: Seq<InFlight>, at: int, slot: Slot)
    requires
        ids_are_unique(entries),
        0 <= at < entries.len(),
    ensures
        ids_are_unique(
            entries.update(at, InFlight { correlation_id: entries[at].correlation_id, slot }),
        ),
        slots_of(entries.update(at, InFlight { correlation_id: entries[at].correlation_id, slot }))
            == slots_of(entries).insert(entries[at].correlation_id, slot),
{
    let id = entries[at].correlation_id;
    let changed = entries.update(at, InFlight { correlation_id: id, slot });
    assert forall|i: int| 0 <= i < changed.len() implies (#[trigger] changed[i]).correlation_id
        == entries[i].correlation_id by {}
    assert forall|i: int, j: int| 0 <= i < j < changed.len() implies (#[trigger] changed[i]).correlation_id
        != (#[trigger] changed[j]).correlation_id by {
        assert(entries[i].correlation_id != entries[j].correlation_id);
    }
    let expected = slots_of(entries).insert(id, slot);
    assert forall|other: u64| slots_of(changed).contains_key(other) == expected.contains_key(
        other,
    ) by {
        if has_id(changed, other) {
            let i = choose|i: int|
                0 <= i < changed.len() && (#[trigger] changed[i]).correlation_id == other;
            assert(entries[i].correlation_id == other);
        }
        if expected.contains_key(other) {
            if other == id {
                assert(changed[at].correlation_id == id);
            } else {
                let i = choose|i: int|
                    0 <= i < entries.len() && (#[trigger] entries[i]).correlation_id == other;
                assert(changed[i].correlation_id == other);
            }
        }
    }
    assert forall|other: u64| slots_of(changed).contains_key(other) implies slots_of(
        changed,
    )[other] == expected[other] by {
        let i = choose|i: int|
            0 <= i < changed.len() && (#[trigger] changed[i]).correlation_id == other;
        lemma_slot_lookup(changed, i);
        lemma_slot_lookup(entries, i);
        if i != at {
            if i < at {
                assert(entries[i].correlation_id != entries[at].correlation_id);
            } else {
                assert(entries[at].correlation_id != entries[i].correlation_id);
            }
        }
    }
    assert(slots_of(changed) =~= expected);
}

/// Copies the payload of `frame` into a vector of its own.
fn payload_of(frame: &Envelope) -> (payload: Vec<u8>)
    ensures
        payload@ == frame.payload@,
{
    let payload = copy_range(frame.payload.as_slice(), 0, frame.payload.len());
    assert(payload@ =~= frame.payload@);
    payload
}

/// The correlation table of one connection.
#[derive(Debug)]
pub struct Channel {
    entries: Vec<InFlight>,
    next_id: u64,
    closed: bool,
}

impl Channel {
    /// What holds of every channel: no two operations share an id, and every
    /// id in flight was handed out before the next one.
    pub closed spec fn well_formed(&self) -> bool {
        &&& ids_are_unique(self.entries@)
        &&& forall|i: int|
            0 <= i < self.entries@.len() ==> (#[trigger] self.entries@[i]).correlation_id
                < self.next_id
    }

    /// The slots that wait, by correlation id.
    pub closed spec fn slots(&self) -> Map<u64, Slot> {
        slots_of(self.entries@)
    }

    /// The correlation ids in flight, oldest first.
    pub closed spec fn ids(&self) -> Seq<u64> {
        Seq::new(self.entries@.len(), |i: int| self.entries@[i].correlation_id)
    }

    /// The id that the next operation will get.
    pub closed spec fn next_id(&self) -> u64 {
        self.next_id
    }

    /// Whether the peer is gone.
    pub closed spec fn is_closed(&self) -> bool {
        self.closed
    }

    /// The ids in flight are exactly the ids that have a slot, each once, and
    /// all of them were handed out before the next one.
    pub proof fn lemma_ids_are_the_slots(&self)
        requires
            self.well_formed(),
        ensures
            self.ids().no_duplicates(),
            forall|id: u64| self.ids().contains(id) <==> self.slots().contains_key(id),
            forall|id: u64| self.slots().contains_key(id) ==> id < self.next_id(),
    {
        let ids = self.ids();
        assert forall|i: int, j: int| 0 <= i < ids.len() && 0 <= j < ids.len() && i != j implies ids[i]
            != ids[j] by {
            if i < j {
                assert(self.entries@[i].correlation_id != self.entries@[j].correlation_id);
            } else {
                assert(self.entries@[j].correlation_id != self.entries@[i].correlation_id);
            }
        }
        assert forall|id: u64| ids.contains(id) <==> self.slots().contains_key(id) by {
            if ids.contains(id) {
                let i = choose|i: int| 0 <= i < ids.len() && ids[i] == id;
                assert(self.entries@[i].correlation_id == id);
            }
            if self.slots().contains_key(id) {
                let i = choose|i: int|
                    0 <= i < self.entries@.len() && (#[trigger] self.entries@[i]).correlation_id
                        == id;
                assert(ids[i] == id);
            }
        }
        assert forall|id: u64| self.slots().contains_key(id) implies id < self.next_id() by {
            let i = choose|i: int|
                0 <= i < self.entries@.len() && (#[trigger] self.entries@[i]).correlation_id == id;
        }
    }

    /// A channel with nothing in flight. Id 0 belongs to the handshake, so the
    /// first operation gets id 1.
    pub fn new() -> (channel: Self)
        ensures
            channel.well_formed(),
            channel.slots() == Map::<u64, Slot>::empty(),
            channel.ids() == Seq::<u64>::empty(),
            channel.next_id() == 1,
            !channel.is_closed(),
    {
        let channel = Channel { entries: Vec::new(), next_id: 1, closed: false };
        assert(channel.slots() =~= Map::<u64, Slot>::empty());
        assert(channel.ids() =~= Seq::<u64>::empty());
        channel
    }

    /// A channel with nothing in flight whose first operation gets the id
    /// `first`, for a connection whose lower ids are spoken for.
    pub fn with_first_id(first: u64) -> (channel: Self)
        ensures
            channel.well_formed(),
            channel.slots() == Map::<u64, Slot>::empty(),
            channel.ids() == Seq::<u64>::empty(),
            channel.next_id() == first,
            !channel.is_closed(),
    {
        let channel = Channel { entries: Vec::new(), next_id: first, closed: false };
        assert(channel.slots() =~= Map::<u64, Slot>::empty());
        assert(channel.ids() =~= Seq::<u64>::empty());
        channel
    }

    /// How many operations are in flight.
    pub fn in_flight(&self) -> (count: usize)
        ensures
            count == self.ids().len(),
    {
        self.entries.len()
    }

    /// Whether the peer is gone.
    pub fn closed(&self) -> (closed: bool)
        ensures
            closed == self.is_closed(),
    {
        self.closed
    }

    /// Where the entry with id `id` stands, if there is one.
    fn position(&self, id: u64) -> (found: Option<usize>)
        requires
            self.well_formed(),
        ensures
            found matches Some(at) ==> at < self.entries@.len() && self.entries@[at as int].correlation_id
                == id,
            found is None ==> !has_id(self.entries@, id),
            found is Some == self.slots().contains_key(id),
    {
        let mut at: usize = 0;
        while at < self.entries.len()
            invariant
                at <= self.entries@.len(),
                forall|i: int| 0 <= i < at ==> (#[trigger] self.entries@[i]).correlation_id != id,
            decreases self.entries@.len() - at,
        {
            if self.entries[at].correlation_id == id {
                assert(has_id(self.entries@, id));
                return Some(at);
            }
            at = at + 1;
        }
        None
    }

    /// The slot that waits under `id`, if one does.
    pub fn slot(&self, id: u64) -> (slot: Option<Slot>)
        requires
            self.well_formed(),
        ensures
            slot == if self.slots().contains_key(id) {
                Some(self.slots()[id])
            } else {
                None
            },
    {
        match self.position(id) {
            Some(at) => {
                proof {
                    lemma_slot_lookup(self.entries@, at as int);
                }
                Some(self.entries[at].slot)
            },
            None => None,
        }
    }

    /// Opens an operation with the slot `slot` under a fresh id.
    fn open(&mut self, slot: Slot) -> (opened: Result<u64, ChannelError>)
        requires
            old(self).well_formed(),
        ensures
            final(self).well_formed(),
            old(self).is_closed() ==> opened == Err::<u64, ChannelError>(ChannelError::Closed)
                && *final(self) == *old(self),
            !old(self).is_closed() && old(self).next_id() == u64::MAX ==> opened == Err::<
                u64,
                ChannelError,
            >(ChannelError::IdsExhausted) && *final(self) == *old(self),
            !old(self).is_closed() && old(self).next_id() < u64::MAX ==> {
                &&& opened == Ok::<u64, ChannelError>(old(self).next_id())
                &&& !old(self).slots().contains_key(old(self).next_id())
                &&& final(self).slots() == old(self).slots().insert(old(self).next_id(), slot)
                &&& final(self).ids() == old(self).ids().push(old(self).next_id())
                &&& final(self).next_id() == old(self).next_id() + 1
                &&& !final(self).is_closed()
            },
    {
        if self.closed {
            return Err(ChannelError::Closed);
        }
        if self.next_id == u64::MAX {
            return Err(ChannelError::IdsExhausted);
        }
        let id: u64 = self.next_id;
        let ghost before = self.entries@;
        proof {
            assert(!has_id(before, id)) by {
                if has_id(before, id) {
                    let i = choose|i: int|
                        0 <= i < before.len() && (#[trigger] before[i]).correlation_id == id;
                    assert(before[i].correlation_id < id);
                }
            }
            lemma_slots_after_push(before, InFlight { correlation_id: id, slot });
        }
        self.next_id = id + 1;
        self.entries.push(InFlight { correlation_id: id, slot });
        assert(self.ids() =~= old(self).ids().push(id));
        Ok(id)
    }

    /// Opens an `ask`: a slot that one reply will fulfil.
    ///
    /// Fails on a closed channel, and once every id has been used. Otherwise
    /// the operation gets the next id, which no operation in flight has.
    pub fn open_ask(&mut self) -> (opened: Result<u64, ChannelError>)
        requires
            old(self).well_formed(),
        ensures
            final(self).well_formed(),
            old(self).is_closed() ==> opened == Err::<u64, ChannelError>(ChannelError::Closed)
                && *final(self) == *old(self),
            !old(self).is_closed() && old(self).next_id() == u64::MAX ==> opened == Err::<
                u64,
                ChannelError,
            >(ChannelError::IdsExhausted) && *final(self) == *old(self),
            !old(self).is_closed() && old(self).next_id() < u64::MAX ==> {
                &&& opened == Ok::<u64, ChannelError>(old(self).next_id())
                &&& !old(self).slots().contains_key(old(self).next_id())
                &&& final(self).slots() == old(self).slots().insert(old(self).next_id(), Slot::Ask)
                &&& final(self).ids() == old(self).ids().push(old(self).next_id())
                &&& final(self).next_id() == old(self).next_id() + 1
                &&& !final(self).is_closed()
            },
    {
        self.open(Slot::Ask)
    }

    /// Opens a callback: a slot that the supervisor's answer will fulfil.
    ///
    /// Fails on a closed channel, and once every id has been used.
    pub fn open_callback(&mut self) -> (opened: Result<u64, ChannelError>)
        requires
            old(self).well_formed(),
        ensures
            final(self).well_formed(),
            old(self).is_closed() ==> opened == Err::<u64, ChannelError>(ChannelError::Closed)
                && *final(self) == *old(self),
            !old(self).is_closed() && old(self).next_id() == u64::MAX ==> opened == Err::<
                u64,
                ChannelError,
            >(ChannelError::IdsExhausted) && *final(self) == *old(self),
            !old(self).is_closed() && old(self).next_id() < u64::MAX ==> {
                &&& opened == Ok::<u64, ChannelError>(old(self).next_id())
                &&& !old(self).slots().contains_key(old(self).next_id())
                &&& final(self).slots() == old(self).slots().insert(
                    old(self).next_id(),
                    Slot::Callback,
                )
                &&& final(self).ids() == old(self).ids().push(old(self).next_id())
                &&& final(self).next_id() == old(self).next_id() + 1
                &&& !final(self).is_closed()
            },
    {
        self.open(Slot::Callback)
    }

    /// Opens a stream: a slot with a fresh session that expects item 0.
    ///
    /// Fails on a closed channel, and once every id has been used.
    pub fn open_stream(&mut self) -> (opened: Result<u64, ChannelError>)
        requires
            old(self).well_formed(),
        ensures
            final(self).well_formed(),
            old(self).is_closed() ==> opened == Err::<u64, ChannelError>(ChannelError::Closed)
                && *final(self) == *old(self),
            !old(self).is_closed() && old(self).next_id() == u64::MAX ==> opened == Err::<
                u64,
                ChannelError,
            >(ChannelError::IdsExhausted) && *final(self) == *old(self),
            !old(self).is_closed() && old(self).next_id() < u64::MAX ==> {
                &&& opened == Ok::<u64, ChannelError>(old(self).next_id())
                &&& !old(self).slots().contains_key(old(self).next_id())
                &&& final(self).slots() == old(self).slots().insert(
                    old(self).next_id(),
                    Slot::Stream {
                        session: StreamSession {
                            correlation_id: old(self).next_id(),
                            next_expected_index: 0,
                            terminal: false,
                        },
                    },
                )
                &&& final(self).ids() == old(self).ids().push(old(self).next_id())
                &&& final(self).next_id() == old(self).next_id() + 1
                &&& !final(self).is_closed()
            },
    {
        let id: u64 = self.next_id;
        self.open(Slot::Stream { session: StreamSession::new(id) })
    }

    /// Frees the slot at `at`.
    fn free(&mut self, at: usize)
        requires
            old(self).well_formed(),
            at < old(self).entries@.len(),
        ensures
            final(self).well_formed(),
            final(self).slots() == old(self).slots().remove(
                old(self).entries@[at as int].correlation_id,
            ),
            final(self).ids() == old(self).ids().remove(at as int),
            final(self).ids() == ids_without(
                old(self).ids(),
                old(self).entries@[at as int].correlation_id,
            ),
            final(self).next_id() == old(self).next_id(),
            final(self).is_closed() == old(self).is_closed(),
    {
        proof {
            lemma_slots_after_remove(self.entries@, at as int);
            self.lemma_ids_are_the_slots();
            let ids = self.ids();
            let id = self.entries@[at as int].correlation_id;
            assert(ids[at as int] == id);
            assert(ids.contains(id));
            assert(ids.index_of(id) == at);
        }
        self.entries.remove(at);
        assert(self.ids() =~= old(self).ids().remove(at as int));
    }

    /// Gives up the operation under `id`: a reply that still arrives is dropped.
    ///
    /// Returns whether an operation waited under `id`.
    pub fn cancel(&mut self, id: u64) -> (cancelled: bool)
        requires
            old(self).well_formed(),
        ensures
            final(self).well_formed(),
            cancelled == old(self).slots().contains_key(id),
            final(self).slots() == old(self).slots().remove(id),
            final(self).ids() == ids_without(old(self).ids(), id),
            final(self).next_id() == old(self).next_id(),
            final(self).is_closed() == old(self).is_closed(),
    {
        match self.position(id) {
            Some(at) => {
                self.free(at);
                true
            },
            None => {
                proof {
                    self.lemma_ids_are_the_slots();
                }
                assert(self.slots().remove(id) =~= self.slots());
                false
            },
        }
    }

    /// Routes one frame: says where it goes and frees the slot of an
    /// operation that it completes.
    pub fn route(&mut self, frame: &Envelope) -> (routed: Routed)
        requires
            old(self).well_formed(),
        ensures
            final(self).well_formed(),
            routed@ == routing_of(old(self).slots(), frame@),
            final(self).slots() == slots_after(old(self).slots(), frame@),
            final(self).ids() == ids_after(old(self).ids(), old(self).slots(), frame@),
            final(self).next_id() == old(self).next_id(),
            final(self).is_closed() == old(self).is_closed(),
    {
        let correlation_id: u64 = frame.correlation_id;
        proof {
            self.lemma_ids_are_the_slots();
        }
        match frame.kind {
            EnvelopeKind::Request => Routed::Request {
                correlation_id,
                payload: payload_of(frame),
            },
            EnvelopeKind::Callback => Routed::Callback {
                correlation_id,
                payload: payload_of(frame),
            },
            EnvelopeKind::HandshakeInit => Routed::Unroutable { kind: EnvelopeKind::HandshakeInit },
            EnvelopeKind::HandshakeAck => Routed::Unroutable { kind: EnvelopeKind::HandshakeAck },
            EnvelopeKind::Reply => {
                match self.position(correlation_id) {
                    Some(at) => {
                        proof {
                            lemma_slot_lookup(self.entries@, at as int);
                        }
                        match self.entries[at].slot {
                            Slot::Ask => {
                                self.free(at);
                                Routed::Fulfil {
                                    correlation_id,
                                    payload: payload_of(frame),
                                }
                            },
                            _ => Routed::Dropped { correlation_id },
                        }
                    },
                    None => Routed::Dropped { correlation_id },
                }
            },
            EnvelopeKind::CallbackReply => {
                match self.position(correlation_id) {
                    Some(at) => {
                        proof {
                            lemma_slot_lookup(self.entries@, at as int);
                        }
                        match self.entries[at].slot {
                            Slot::Callback => {
                                self.free(at);
                                Routed::Resume {
                                    correlation_id,
                                    payload: payload_of(frame),
                                }
                            },
                            _ => Routed::Dropped { correlation_id },
                        }
                    },
                    None => Routed::Dropped { correlation_id },
                }
            },
            EnvelopeKind::StreamItem | EnvelopeKind::StreamEnd | EnvelopeKind::StreamError => {
                match self.position(correlation_id) {
                    Some(at) => {
                        proof {
                            lemma_slot_lookup(self.entries@, at as int);
                        }
                        match self.entries[at].slot {
                            Slot::Stream { session } => {
                                let mut session = session;
                                let outcome = session.accept(frame);
                                if session.terminal {
                                    self.free(at);
                                } else {
                                    proof {
                                        lemma_slots_after_update(
                                            self.entries@,
                                            at as int,
                                            Slot::Stream { session },
                                        );
                                    }
                                    self.entries.set(
                                        at,
                                        InFlight { correlation_id, slot: Slot::Stream { session } },
                                    );
                                }
                                match outcome {
                                    Ok(Delivery::Item(value)) => Routed::StreamItem {
                                        correlation_id,
                                        value,
                                    },
                                    Ok(Delivery::End) => Routed::StreamEnded { correlation_id },
                                    Ok(Delivery::Failed(reason)) => Routed::StreamFailed {
                                        correlation_id,
                                        reason,
                                    },
                                    Err(error) => Routed::StreamViolation { correlation_id, error },
                                }
                            },
                            _ => Routed::Dropped { correlation_id },
                        }
                    },
                    None => Routed::Dropped { correlation_id },
                }
            },
        }
    }

    /// The peer is gone: every operation in flight fails with a closed
    /// channel, and no operation can be opened any more.
    ///
    /// Returns the ids of the operations to fail, oldest first.
    pub fn close(&mut self) -> (failed: Vec<u64>)
        requires
            old(self).well_formed(),
        ensures
            final(self).well_formed(),
            failed@ == old(self).ids(),
            final(self).slots() == Map::<u64, Slot>::empty(),
            final(self).ids() == Seq::<u64>::empty(),
            final(self).is_closed(),
            final(self).next_id() == old(self).next_id(),
    {
        let mut failed: Vec<u64> = Vec::new();
        let mut at: usize = 0;
        while at < self.entries.len()
            invariant
                at <= self.entries@.len(),
                *self == *old(self),
                failed@ == self.ids().take(at as int),
            decreases self.entries@.len() - at,
        {
            failed.push(self.entries[at].correlation_id);
            at = at + 1;
            assert(failed@ =~= self.ids().take(at as int));
        }
        assert(self.ids().take(at as int) =~= self.ids());
        self.closed = true;
        self.entries.clear();
        assert(self.slots() =~= Map::<u64, Slot>::empty());
        assert(self.ids() =~= Seq::<u64>::empty());
        failed
    }
}

/// Whether `frames` are replies to distinct operations, each of which waits
/// in `slots` for its single reply.
pub open spec fn are_replies_to_waiting_asks(slots: Map<u64, Slot>, frames: Seq<EnvelopeView>) -> bool {
    &&& forall|i: int|
        0 <= i < frames.len() ==> {
            &&& (#[trigger] frames[i]).kind == EnvelopeKind::Reply
            &&& slots.contains_key(frames[i].correlation_id)
            &&& slots[frames[i].correlation_id] == Slot::Ask
        }
    &&& forall|i: int, j: int|
        0 <= i < j < frames.len() ==> (#[trigger] frames[i]).correlation_id != (
        #[trigger] frames[j]).correlation_id
}

/// Routing replies frees exactly the slots they fulfil: every other slot
/// still waits, unchanged.
proof fn lemma_replies_free_their_slots(slots: Map<u64, Slot>, frames: Seq<EnvelopeView>)
    requires
        are_replies_to_waiting_asks(slots, frames),
    ensures
        forall|id: u64| #[trigger]
            slots_after_all(slots, frames).contains_key(id) <==> slots.contains_key(id) && !(
            exists|i: int| 0 <= i < frames.len() && (#[trigger] frames[i]).correlation_id == id),
        forall|id: u64| #[trigger]
            slots_after_all(slots, frames).contains_key(id) ==> slots_after_all(slots, frames)[id]
                == slots[id],
    decreases frames.len(),
{
    if frames.len() > 0 {
        let earlier = frames.drop_last();
        let last = frames.last();
        assert forall|i: int| 0 <= i < earlier.len() implies (#[trigger] earlier[i])
            == frames[i] by {}
        lemma_replies_free_their_slots(slots, earlier);
        let before = slots_after_all(slots, earlier);
        assert(before.contains_key(last.correlation_id)) by {
            if exists|i: int|
                0 <= i < earlier.len() && (#[trigger] earlier[i]).correlation_id
                    == last.correlation_id {
                let i = choose|i: int|
                    0 <= i < earlier.len() && (#[trigger] earlier[i]).correlation_id
                        == last.correlation_id;
                assert(frames[i].correlation_id != frames[frames.len() - 1].correlation_id);
            }
        }
        assert(slots_after_all(slots, frames) == before.remove(last.correlation_id));
        assert forall|id: u64| #[trigger]
            slots_after_all(slots, frames).contains_key(id) <==> slots.contains_key(id) && !(
            exists|i: int|
                0 <= i < frames.len() && (#[trigger] frames[i]).correlation_id == id) by {
            if slots_after_all(slots, frames).contains_key(id) {
                if exists|i: int|
                    0 <= i < frames.len() && (#[trigger] frames[i]).correlation_id == id {
                    let i = choose|i: int|
                        0 <= i < frames.len() && (#[trigger] frames[i]).correlation_id == id;
                    if i < earlier.len() {
                        assert(earlier[i].correlation_id == id);
                    }
                }
            }
            if slots.contains_key(id) && !(exists|i: int|
                0 <= i < frames.len() && (#[trigger] frames[i]).correlation_id == id) {
                assert(frames[frames.len() - 1].correlation_id != id);
                assert(!(exists|i: int|
                    0 <= i < earlier.len() && (#[trigger] earlier[i]).correlation_id == id)) by {
                    if exists|i: int|
                        0 <= i < earlier.len() && (#[trigger] earlier[i]).correlation_id == id {
                        let i = choose|i: int|
                            0 <= i < earlier.len() && (#[trigger] earlier[i]).correlation_id == id;
                        assert(frames[i].correlation_id == id);
                    }
                }
            }
        }
    }
}

/// Every caller receives exactly the reply that carries its own correlation
/// id, in whatever order the replies complete: each reply is routed to the
/// slot under its id with its own payload, and afterwards precisely the
/// operations that were answered have left the table.
pub proof fn lemma_replies_reach_their_callers(slots: Map<u64, Slot>, frames: Seq<EnvelopeView>)
    requires
        are_replies_to_waiting_asks(slots, frames),
    ensures
        routings_of(slots, frames).len() == frames.len(),
        forall|i: int|
            0 <= i < frames.len() ==> (#[trigger] routings_of(slots, frames)[i])
                == (RoutedView::Fulfil {
                correlation_id: frames[i].correlation_id,
                payload: frames[i].payload,
            }),
        forall|id: u64| #[trigger]
            slots_after_all(slots, frames).contains_key(id) <==> slots.contains_key(id) && !(
            exists|i: int| 0 <= i < frames.len() && (#[trigger] frames[i]).correlation_id == id),
    decreases frames.len(),
{
    lemma_replies_free_their_slots(slots, frames);
    if frames.len() > 0 {
        let earlier = frames.drop_last();
        let last = frames.last();
        assert forall|i: int| 0 <= i < earlier.len() implies (#[trigger] earlier[i])
            == frames[i] by {}
        lemma_replies_reach_their_callers(slots, earlier);
        lemma_replies_free_their_slots(slots, earlier);
        let before = slots_after_all(slots, earlier);
        assert(before.contains_key(last.correlation_id) && before[last.correlation_id]
            == Slot::Ask) by {
            if exists|i: int|
                0 <= i < earlier.len() && (#[trigger] earlier[i]).correlation_id
                    == last.correlation_id {
                let i = choose|i: int|
                    0 <= i < earlier.len() && (#[trigger] earlier[i]).correlation_id
                        == last.correlation_id;
                assert(frames[i].correlation_id != frames[frames.len() - 1].correlation_id);
            }
        }
    }
}

/// Where the frames of a stream go: every value to the reader of the stream,
/// in order, and then the end or the failure.
pub open spec fn stream_routings(
    correlation_id: u64,
    values: Seq<Seq<u8>>,
    failure: Option<Seq<u8>>,
) -> Seq<RoutedView> {
    Seq::new(
        values.len() + 1,
        |i: int|
            if i < values.len() {
                RoutedView::StreamItem { correlation_id, value: values[i] }
            } else {
                match failure {
                    Some(reason) => RoutedView::StreamFailed { correlation_id, reason },
                    None => RoutedView::StreamEnded { correlation_id },
                }
            },
    )
}

/// The slot of a stream whose next item is number `next`.
pub open spec fn stream_slot(correlation_id: u64, next: u64) -> Slot {
    Slot::Stream {
        session: StreamSession { correlation_id, next_expected_index: next, terminal: false },
    }
}

/// The first `count` frames of a stream are routed to its reader as its
/// first `count` values, and leave its slot waiting for item `count`.
proof fn lemma_stream_items_are_routed(
    slots: Map<u64, Slot>,
    correlation_id: u64,
    values: Seq<Seq<u8>>,
    failure: Option<Seq<u8>>,
    count: int,
)
    requires
        slots.contains_key(correlation_id),
        slots[correlation_id] == stream_slot(correlation_id, 0),
        0 <= count <= values.len() < u64::MAX,
    ensures
        slots_after_all(slots, stream_frames(correlation_id, values, failure).take(count))
            == slots.insert(correlation_id, stream_slot(correlation_id, count as u64)),
        routings_of(slots, stream_frames(correlation_id, values, failure).take(count))
            == stream_routings(correlation_id, values, failure).take(count),
    decreases count,
{
    let frames = stream_frames(correlation_id, values, failure);
    let routings = stream_routings(correlation_id, values, failure);
    if count == 0 {
        assert(slots.insert(correlation_id, stream_slot(correlation_id, 0)) =~= slots);
        assert(routings_of(slots, frames.take(0)) =~= routings.take(0));
    } else {
        lemma_stream_items_are_routed(slots, correlation_id, values, failure, count - 1);
        lemma_item_payload_round_trip((count - 1) as u64, values[count - 1]);
        assert(frames.take(count).drop_last() =~= frames.take(count - 1));
        assert(frames.take(count).last() == item_frame(
            correlation_id,
            (count - 1) as u64,
            values[count - 1],
        ));
        let before = slots.insert(correlation_id, stream_slot(correlation_id, (count - 1) as u64));
        assert(before.insert(correlation_id, stream_slot(correlation_id, count as u64))
            =~= slots.insert(correlation_id, stream_slot(correlation_id, count as u64)));
        assert(routings.take(count) =~= routings.take(count - 1).push(routings[count - 1]));
    }
}

/// A stream reaches its reader whole: routing the frames that a producer
/// writes for `values` hands the reader of that stream every value in the
/// order it was yielded, then the end or the failure, and frees the slot.
/// No other slot of the connection is touched.
pub proof fn lemma_stream_reaches_its_reader(
    slots: Map<u64, Slot>,
    correlation_id: u64,
    values: Seq<Seq<u8>>,
    failure: Option<Seq<u8>>,
)
    requires
        slots.contains_key(correlation_id),
        slots[correlation_id] == stream_slot(correlation_id, 0),
        values.len() < u64::MAX,
    ensures
        routings_of(slots, stream_frames(correlation_id, values, failure)) == stream_routings(
            correlation_id,
            values,
            failure,
        ),
        slots_after_all(slots, stream_frames(correlation_id, values, failure)) == slots.remove(
            correlation_id,
        ),
{
    let frames = stream_frames(correlation_id, values, failure);
    let routings = stream_routings(correlation_id, values, failure);
    let count = values.len() as int;
    lemma_stream_items_are_routed(slots, correlation_id, values, failure, count);
    assert(frames.drop_last() =~= frames.take(count));
    let before = slots.insert(correlation_id, stream_slot(correlation_id, count as u64));
    assert(before.remove(correlation_id) =~= slots.remove(correlation_id));
    assert(routings =~= routings.take(count).push(routings[count]));
}

} // verus!
