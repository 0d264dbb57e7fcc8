//! The variant for a display that one thread uses.

use crate::error::BreadError;
use crate::event::{event_views, Event};
use crate::request::{Fd, PendingRequest};
use crate::variant::unsync_tables::{
    error_table, errors_insert, errors_new, errors_remove, extension_table, extensions_get,
    extensions_insert, extensions_new, reply_table, replies_insert, replies_new, replies_remove,
    request_table, requests_contains, requests_get, requests_insert, requests_new,
    requests_remove, requests_retain_unchecked, special_contains, special_get_mut,
    special_insert, special_remove, special_table, special_with_capacity,
};
use crate::variant::{DisplayVariant, PendingReply, VariantState};
use crate::xid::{XidGeneratorUnsync, XID};
use hashbrown::HashMap;
use std::collections::VecDeque;
use vstd::prelude::*;

verus! {

/// The variant of the display that is not thread-safe.
pub struct UnsyncVariant {
    event_queue: VecDeque<Event>,
    pending_requests: HashMap<u16, PendingRequest>,
    pending_errors: HashMap<u16, BreadError>,
    pending_replies: HashMap<u16, PendingReply>,
    special_event_queues: HashMap<XID, VecDeque<Event>>,
    extensions: HashMap<[u8; 24], u8>,
    request_number: u16,
    xid: XidGeneratorUnsync,
    wm_protocols_atom: Option<u32>,
    checked: bool,
}

impl DisplayVariant for UnsyncVariant {
    closed spec fn state(&self) -> VariantState {
        VariantState {
            events: event_views(self.event_queue@),
            special: special_table(self.special_event_queues),
            requests: request_table(self.pending_requests),
            errors: error_table(self.pending_errors),
            replies: reply_table(self.pending_replies),
            extensions: extension_table(self.extensions),
            request_number: self.request_number,
            xid: self.xid@,
            checked: self.checked,
            wm_protocols_atom: self.wm_protocols_atom,
        }
    }

    closed spec fn wf(&self) -> bool {
        self.xid.wf()
    }

    fn new() -> (variant: Self) {
        let variant = UnsyncVariant {
            event_queue: VecDeque::new(),
            pending_requests: requests_new(),
            pending_errors: errors_new(),
            pending_replies: replies_new(),
            special_event_queues: special_with_capacity(1),
            extensions: extensions_new(),
            request_number: 0,
            xid: XidGeneratorUnsync::default(),
            wm_protocols_atom: None,
            checked: true,
        };
        assert(variant.state().events =~= Seq::<Seq<u8>>::empty());
        variant
    }

    fn set_xid_base(&mut self, base: XID, mask: XID) {
        self.xid = XidGeneratorUnsync::new(base, mask);
    }

    fn queue_event(&mut self, ev: Event) {
        self.event_queue.push_back(ev);
        assert(event_views(self.event_queue@) =~= event_views(old(self).event_queue@).push(ev@));
    }

    fn pop_event(&mut self) -> (ev: Option<Event>) {
        let ev = self.event_queue.pop_front();
        assert(old(self).event_queue@.len() > 0 ==> event_views(self.event_queue@) =~= event_views(
            old(self).event_queue@,
        ).drop_first());
        assert(old(self).event_queue@.len() == 0 ==> event_views(self.event_queue@) =~= event_views(
            old(self).event_queue@,
        ));
        ev
    }

    fn register_special_event(&mut self, eid: XID) {
        let queue: VecDeque<Event> = VecDeque::new();
        assert(event_views(queue@) =~= Seq::<Seq<u8>>::empty());
        let _ = special_insert(&mut self.special_event_queues, eid, queue);
    }

    fn unregister_special_event(&mut self, eid: XID) {
        let _ = special_remove(&mut self.special_event_queues, eid);
    }

    fn is_queue_registered(&self, eid: XID) -> (registered: bool) {
        special_contains(&self.special_event_queues, eid)
    }

    fn get_special_event(&mut self, eid: XID) -> (ev: Result<Option<Event>, BreadError>) {
        let ghost before = special_table(self.special_event_queues);
        match special_get_mut(&mut self.special_event_queues, eid) {
            None => Err(BreadError::NoSpecialQueue(eid)),
            Some(queue) => {
                let ghost held = queue@;
                let ev = queue.pop_front();
                proof {
                    if held.len() > 0 {
                        assert(event_views(queue@) =~= before[eid].drop_first());
                    } else {
                        assert(event_views(queue@) =~= before[eid]);
                        assert(before.insert(eid, before[eid]) =~= before);
                    }
                }
                Ok(ev)
            },
        }
    }

    fn generate_xid(&mut self) -> (id: Result<XID, BreadError>) {
        match self.xid.next() {
            Some(id) => Ok(id),
            None => Err(BreadError::NoXID),
        }
    }

    fn checked(&self) -> (checked: bool) {
        self.checked
    }

    fn set_checked(&mut self, checked: bool) {
        self.checked = checked;
        if !checked {
            requests_retain_unchecked(&mut self.pending_requests);
        }
    }

    fn pending_request_contains(&self, sequence: u16) -> (pending: bool) {
        requests_contains(&self.pending_requests, sequence)
    }

    fn get_pending_request(&self, sequence: u16) -> (pending: Option<PendingRequest>) {
        requests_get(&self.pending_requests, sequence)
    }

    fn remove_pending_request(&mut self, sequence: u16) -> (pending: Option<PendingRequest>) {
        requests_remove(&mut self.pending_requests, sequence)
    }

    fn retrieve_pending_error(&mut self, sequence: u16) -> (err: Option<BreadError>) {
        errors_remove(&mut self.pending_errors, sequence)
    }

    fn retrieve_pending_reply(&mut self, sequence: u16) -> (reply: Option<(Vec<u8>, Vec<Fd>)>) {
        match replies_remove(&mut self.pending_replies, sequence) {
            None => None,
            Some(reply) => Some((reply.bytes, reply.fds)),
        }
    }

    fn insert_pending_request(&mut self, sequence: u16, pr: PendingRequest) {
        let _ = requests_insert(&mut self.pending_requests, sequence, pr);
    }

    fn insert_pending_error(&mut self, sequence: u16, err: BreadError) {
        let _ = errors_insert(&mut self.pending_errors, sequence, err);
    }

    fn insert_pending_reply(&mut self, sequence: u16, bytes: Vec<u8>, fds: Vec<Fd>) {
        let _ = replies_insert(&mut self.pending_replies, sequence, PendingReply { bytes, fds });
    }

    fn try_queue_special_event(&mut self, event: Event, eid: XID) -> (queued: Result<XID, Event>) {
        let ghost before = special_table(self.special_event_queues);
        match special_get_mut(&mut self.special_event_queues, eid) {
            Some(queue) => {
                queue.push_back(event);
                assert(event_views(queue@) =~= before[eid].push(event@));
                Ok(eid)
            },
            None => Err(event),
        }
    }

    fn next_request_number(&mut self) -> (sequence: u16) {
        let sequence = self.request_number;
        self.request_number = if sequence == u16::MAX {
            0
        } else {
            sequence + 1
        };
        sequence
    }

    fn advance_request_number(&mut self) {
    }

    fn get_ext_opcode(&self, sarr: &[u8; 24]) -> (code: Option<u8>) {
        extensions_get(&self.extensions, sarr)
    }

    fn insert_ext_opcode(&mut self, sarr: [u8; 24], code: u8) {
        let _ = extensions_insert(&mut self.extensions, sarr, code);
    }

    fn wm_protocols_atom(&self) -> (atom: Option<u32>) {
        self.wm_protocols_atom
    }

    fn set_wm_protocols_atom(&mut self, n: u32) {
        self.wm_protocols_atom = if n == 0 {
            None
        } else {
            Some(n)
        };
    }
}

} // verus!
