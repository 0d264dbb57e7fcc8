//! The variant for a display that several threads share.

use crate::error::BreadError;
use crate::event::{event_views, Event};
use crate::request::{Fd, PendingRequest};
use crate::variant::sync_tables::{
    queue_accepts, shared_error_table, shared_errors_insert, shared_errors_new,
    shared_errors_remove, shared_event_queue, shared_events_new, shared_events_pop,
    shared_events_push, shared_extension_table, shared_extensions_get,
    shared_extensions_insert, shared_extensions_new, shared_replies_insert,
    shared_replies_new, shared_replies_remove, shared_reply_table, shared_request_table,
    shared_requests_contains, shared_requests_get, shared_requests_insert,
    shared_requests_new, shared_requests_remove, shared_requests_retain_unchecked,
    shared_special_contains, shared_special_insert, shared_special_remove,
    shared_special_table, shared_special_with_capacity,
};
use crate::variant::{DisplayVariant, PendingReply, VariantState};
use crate::xid::{XidGeneratorSync, XID};
use concurrent_queue::ConcurrentQueue;
use dashmap::DashMap;
use std::collections::VecDeque;
use vstd::prelude::*;

verus! {

/// The variant of the display whose collections are thread-safe.
pub struct SyncVariant {
    event_queue: ConcurrentQueue<Event>,
    pending_requests: DashMap<u16, PendingRequest>,
    pending_errors: DashMap<u16, BreadError>,
    pending_replies: DashMap<u16, PendingReply>,
    special_event_queues: DashMap<XID, VecDeque<Event>>,
    extensions: DashMap<[u8; 24], u8>,
    request_number: u16,
    xid: XidGeneratorSync,
    wm_protocols_atom: Option<u32>,
    checked: bool,
}

impl DisplayVariant for SyncVariant {
    closed spec fn state(&self) -> VariantState {
        VariantState {
            events: shared_event_queue(self.event_queue),
            special: shared_special_table(self.special_event_queues),
            requests: shared_request_table(self.pending_requests),
            errors: shared_error_table(self.pending_errors),
            replies: shared_reply_table(self.pending_replies),
            extensions: shared_extension_table(self.extensions),
            request_number: self.request_number,
            xid: self.xid@,
            checked: self.checked,
            wm_protocols_atom: self.wm_protocols_atom,
        }
    }

    closed spec fn wf(&self) -> bool {
        self.xid.wf() && queue_accepts(self.event_queue)
    }

    fn new() -> (variant: Self) {
        let variant = SyncVariant {
            event_queue: shared_events_new(),
            pending_requests: shared_requests_new(),
            pending_errors: shared_errors_new(),
            pending_replies: shared_replies_new(),
            special_event_queues: shared_special_with_capacity(1),
            extensions: shared_extensions_new(),
            request_number: 0,
            xid: XidGeneratorSync::default(),
            wm_protocols_atom: None,
            checked: true,
        };
        variant
    }

    fn set_xid_base(&mut self, base: XID, mask: XID) {
        self.xid = XidGeneratorSync::new(base, mask);
    }

    fn queue_event(&mut self, ev: Event) {
        let _ = shared_events_push(&mut self.event_queue, ev);
    }

    fn pop_event(&mut self) -> (ev: Option<Event>) {
        shared_events_pop(&mut self.event_queue)
    }

    fn register_special_event(&mut self, eid: XID) {
        let queue: VecDeque<Event> = VecDeque::new();
        assert(event_views(queue@) =~= Seq::<Seq<u8>>::empty());
        let _ = shared_special_insert(&mut self.special_event_queues, eid, queue);
    }

    fn unregister_special_event(&mut self, eid: XID) {
        let _ = shared_special_remove(&mut self.special_event_queues, eid);
    }

    fn is_queue_registered(&self, eid: XID) -> (registered: bool) {
        shared_special_contains(&self.special_event_queues, eid)
    }

    fn get_special_event(&mut self, eid: XID) -> (ev: Result<Option<Event>, BreadError>) {
        let ghost before = shared_special_table(self.special_event_queues);
        match shared_special_remove(&mut self.special_event_queues, eid) {
            None => {
                assert(before.remove(eid) =~= before);
                Err(BreadError::NoSpecialQueue(eid))
            },
            Some(queue) => {
                let mut queue = queue;
                let ghost held = queue@;
                let ev = queue.pop_front();
                proof {
                    if held.len() > 0 {
                        assert(event_views(queue@) =~= before[eid].drop_first());
                    } else {
                        assert(event_views(queue@) =~= before[eid]);
                    }
                }
                let _ = shared_special_insert(&mut self.special_event_queues, eid, queue);
                proof {
                    let after = shared_special_table(self.special_event_queues);
                    if held.len() > 0 {
                        assert(after =~= before.insert(eid, before[eid].drop_first()));
                    } else {
                        assert(after =~= before);
                    }
                }
                Ok(ev)
            },
        }
    }

    fn generate_xid(&mut self) -> (id: Result<XID, BreadError>) {
        match self.xid.next() {
            Some(id) => Ok(id),
            None => Err(BreadError::NoXID),
        }
    }

    fn checked(&self) -> (checked: bool) {
        self.checked
    }

    fn set_checked(&mut self, checked: bool) {
        self.checked = checked;
        if !checked {
            shared_requests_retain_unchecked(&mut self.pending_requests);
        }
    }

    fn pending_request_contains(&self, sequence: u16) -> (pending: bool) {
        shared_requests_contains(&self.pending_requests, sequence)
    }

    fn get_pending_request(&self, sequence: u16) -> (pending: Option<PendingRequest>) {
        shared_requests_get(&self.pending_requests, sequence)
    }

    fn remove_pending_request(&mut self, sequence: u16) -> (pending: Option<PendingRequest>) {
        shared_requests_remove(&mut self.pending_requests, sequence)
    }

    fn retrieve_pending_error(&mut self, sequence: u16) -> (err: Option<BreadError>) {
        shared_errors_remove(&mut self.pending_errors, sequence)
    }

    fn retrieve_pending_reply(&mut self, sequence: u16) -> (reply: Option<(Vec<u8>, Vec<Fd>)>) {
        match shared_replies_remove(&mut self.pending_replies, sequence) {
            None => None,
            Some(reply) => Some((reply.bytes, reply.fds)),
        }
    }

    fn insert_pending_request(&mut self, sequence: u16, pr: PendingRequest) {
        let _ = shared_requests_insert(&mut self.pending_requests, sequence, pr);
    }

    fn insert_pending_error(&mut self, sequence: u16, err: BreadError) {
        let _ = shared_errors_insert(&mut self.pending_errors, sequence, err);
    }

    fn insert_pending_reply(&mut self, sequence: u16, bytes: Vec<u8>, fds: Vec<Fd>) {
        let reply = PendingReply { bytes, fds };
        let _ = shared_replies_insert(&mut self.pending_replies, sequence, reply);
    }

    fn try_queue_special_event(&mut self, event: Event, eid: XID) -> (queued: Result<XID, Event>) {
        let ghost before = shared_special_table(self.special_event_queues);
        match shared_special_remove(&mut self.special_event_queues, eid) {
            Some(queue) => {
                let mut queue = queue;
                queue.push_back(event);
                assert(event_views(queue@) =~= before[eid].push(event@));
                let _ = shared_special_insert(&mut self.special_event_queues, eid, queue);
                assert(shared_special_table(self.special_event_queues) =~= before.insert(
                    eid,
                    before[eid].push(event@),
                ));
                Ok(eid)
            },
            None => {
                assert(before.remove(eid) =~= before);
                Err(event)
            },
        }
    }

    fn next_request_number(&mut self) -> (sequence: u16) {
        let sequence = self.request_number;
        self.request_number = if sequence == u16::MAX {
            0
        } else {
            sequence + 1
        };
        sequence
    }

    fn advance_request_number(&mut self) {
    }

    fn get_ext_opcode(&self, sarr: &[u8; 24]) -> (code: Option<u8>) {
        shared_extensions_get(&self.extensions, sarr)
    }

    fn insert_ext_opcode(&mut self, sarr: [u8; 24], code: u8) {
        let _ = shared_extensions_insert(&mut self.extensions, sarr, code);
    }

    fn wm_protocols_atom(&self) -> (atom: Option<u32>) {
        self.wm_protocols_atom
    }

    fn set_wm_protocols_atom(&mut self, n: u32) {
        self.wm_protocols_atom = if n == 0 {
            None
        } else {
            Some(n)
        };
    }
}

} // verus!
