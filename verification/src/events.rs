//! Event records: what is scheduled, for whom, and when.

use vstd::prelude::*;
use crate::jiffy::Jiffies;

verus! {

/// Identifies a process: a dense index that starts at 1.
pub type ProcessId = usize;

/// Identifies a submitted event. Ids are handed out in ascending order, so
/// among events due at the same jiffy the one submitted first fires first.
pub type EventId = usize;

/// A timer is identified by the event that fires it.
pub type TimerId = EventId;

/// `bytes::Bytes`, seen only through the bytes it holds.
#[verifier::external_type_specification]
#[verifier::external_body]
pub struct ExBytes(bytes::Bytes);

/// The bytes that a payload holds.
pub uninterp spec fn payload_bytes(b: bytes::Bytes) -> Seq<u8>;

/// `bytes::Bytes::len`: the number of bytes in the buffer.
pub assume_specification[ bytes::Bytes::len ](b: &bytes::Bytes) -> (n: usize)
    ensures
        n == payload_bytes(*b).len(),
;

/// `Clone::clone` of `bytes::Bytes`: a second handle on the same bytes.
pub assume_specification[ <bytes::Bytes as Clone>::clone ](b: &bytes::Bytes) -> (r: bytes::Bytes)
    ensures
        payload_bytes(r) == payload_bytes(*b),
;

/// Where a submitted event goes.
#[derive(Clone, Copy, Debug, PartialEq, Eq, Structural, PartialOrd, Ord, Hash)]
pub enum Destination {
    /// Every process of the simulation.
    Broadcast,
    /// The process that submits it.
    SendSelf,
}

/// A message in flight: who sent it and what it carries.
#[derive(Clone, Debug, PartialEq, Eq, PartialOrd, Ord, Hash)]
pub struct Message {
    pub source: ProcessId,
    pub payload: bytes::Bytes,
}

/// A message as contracts see it: the sender and the bytes carried.
pub struct MessageView {
    pub source: ProcessId,
    pub payload: Seq<u8>,
}

impl View for Message {
    type V = MessageView;

    open spec fn view(&self) -> MessageView {
        MessageView { source: self.source, payload: payload_bytes(self.payload) }
    }
}

impl Message {
    /// The size that the sender's NIC is charged for this message.
    pub open spec fn spec_virtual_size(self) -> nat {
        payload_bytes(self.payload).len()
    }

    /// The size that the sender's NIC is charged for this message, in bytes.
    pub fn virtual_size(&self) -> (n: usize)
        ensures
            n == self.spec_virtual_size(),
    {
        self.payload.len()
    }
}

/// What an event delivers.
#[derive(Clone, Debug, PartialEq, Eq, PartialOrd, Ord, Hash)]
pub enum EventType {
    /// A timer of the destination process fires.
    Timeout,
    /// A message arrives.
    Message(Message),
}

/// What an event delivers, as contracts see it.
pub enum EventTypeView {
    Timeout,
    Message(MessageView),
}

impl View for EventType {
    type V = EventTypeView;

    open spec fn view(&self) -> EventTypeView {
        match *self {
            EventType::Timeout => EventTypeView::Timeout,
            EventType::Message(m) => EventTypeView::Message(m@),
        }
    }
}

/// A scheduled delivery as contracts see it.
pub struct EventView {
    pub id: EventId,
    pub time: Jiffies,
    pub dest: ProcessId,
    pub event_type: EventTypeView,
}

/// A scheduled delivery.
#[derive(Clone, Debug, PartialEq, Eq, PartialOrd, Ord, Hash)]
pub struct Event {
    pub id: EventId,
    pub time: Jiffies,
    pub dest: ProcessId,
    pub event_type: EventType,
}

impl View for Event {
    type V = EventView;

    open spec fn view(&self) -> EventView {
        EventView {
            id: self.id,
            time: self.time,
            dest: self.dest,
            event_type: self.event_type@,
        }
    }
}

impl Event {
    /// The footprint of the event: its id, and for a message the sender's id
    /// and the payload.
    pub open spec fn spec_size(self) -> nat {
        match self.event_type {
            EventType::Timeout => vstd::layout::size_of::<EventId>(),
            EventType::Message(m) => vstd::layout::size_of::<EventId>() + vstd::layout::size_of::<
                ProcessId,
            >() + payload_bytes(m.payload).len(),
        }
    }

    /// The footprint of the event in bytes, or `None` where it does not fit
    /// in a `usize`.
    pub fn size(&self) -> (n: Option<usize>)
        ensures
            n == (if self.spec_size() <= usize::MAX {
                Some(self.spec_size() as usize)
            } else {
                None
            }),
    {
        broadcast use vstd::layout::layout_of_primitives;

        let id = core::mem::size_of::<EventId>();
        match &self.event_type {
            EventType::Timeout => Some(id),
            EventType::Message(m) => {
                let header = id + core::mem::size_of::<ProcessId>();
                m.payload.len().checked_add(header)
            },
        }
    }
}

} // verus!
