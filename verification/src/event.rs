//! Events as the server sent them.

use crate::packet::PacketBuf;
use crate::wire::{u32_at, read_u32, GENERIC_EVENT, GE_MASK};
use crate::xid::XID;
use vstd::prelude::*;

verus! {

/// An event in its undifferentiated form: the 32-byte unit, followed by the
/// additional payload of a generic event.
#[derive(Debug, Clone, PartialEq, Eq)]
pub struct Event {
    bytes: Vec<u8>,
}

impl View for Event {
    type V = Seq<u8>;

    closed spec fn view(&self) -> Seq<u8> {
        self.bytes@
    }
}

/// The bytes of each event of a queue, in the queue's order.
pub open spec fn event_views(queue: Seq<Event>) -> Seq<Seq<u8>> {
    queue.map_values(|e: Event| e@)
}

/// The resource that a generic event is addressed to, where `bytes` is one:
/// its code, without the synthetic bit, is 35, and bytes 12 to 15 name the
/// resource.
pub open spec fn special_target(bytes: Seq<u8>) -> Option<XID> {
    if bytes.len() >= 16 && bytes[0] & GE_MASK == GENERIC_EVENT {
        Some(u32_at(bytes, 12))
    } else {
        None
    }
}

impl Event {
    /// The event that the received bytes make up.
    pub fn from_bytes(bytes: PacketBuf) -> (event: Event)
        ensures
            event@ == bytes@,
    {
        Event { bytes: bytes.into_vec() }
    }

    /// The event's bytes as they were received.
    pub fn as_byte_slice(&self) -> (bytes: &[u8])
        ensures
            bytes@ == self@,
    {
        self.bytes.as_slice()
    }

    /// The resource whose special queue this event belongs to, if it is a
    /// generic event.
    pub fn special_target(&self) -> (target: Option<XID>)
        ensures
            target == special_target(self@),
    {
        let bytes = self.bytes.as_slice();
        if bytes.len() >= 16 && bytes[0] & GE_MASK == GENERIC_EVENT {
            Some(read_u32(bytes, 12))
        } else {
            None
        }
    }
}

} // verus!
