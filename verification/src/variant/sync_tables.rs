//! The collections of the thread-safe variant: `dashmap::DashMap` and
//! `concurrent_queue::ConcurrentQueue`, and what is taken for granted of
//! them. Every function here that changes a collection takes it by `&mut`,
//! so no other thread is at work on it meanwhile.

use crate::error::BreadError;
use crate::event::{event_views, Event};
use crate::request::{survives_unchecked, Fd, PendingRequest};
use crate::variant::{lookup, PendingReply};
use crate::xid::XID;
use concurrent_queue::ConcurrentQueue;
use dashmap::DashMap;
use std::collections::VecDeque;
use vstd::prelude::*;

verus! {

/// `dashmap::DashMap`, as a type whose inside stays closed.
#[verifier::external_type_specification]
#[verifier::external_body]
#[verifier::reject_recursive_types(K)]
#[verifier::reject_recursive_types(V)]
#[verifier::reject_recursive_types(S)]
pub struct ExDashMap<K, V, S>(dashmap::DashMap<K, V, S>);

/// `concurrent_queue::ConcurrentQueue`, as a type whose inside stays closed.
#[verifier::external_type_specification]
#[verifier::external_body]
#[verifier::reject_recursive_types(T)]
pub struct ExConcurrentQueue<T>(concurrent_queue::ConcurrentQueue<T>);

/// The pending requests that a table holds, by sequence number.
pub uninterp spec fn shared_request_table(table: DashMap<u16, PendingRequest>) -> Map<u16, PendingRequest>;

/// The errors that a table holds, by sequence number.
pub uninterp spec fn shared_error_table(table: DashMap<u16, BreadError>) -> Map<u16, BreadError>;

/// The replies that a table holds, by sequence number: bytes and file
/// descriptors of each.
pub uninterp spec fn shared_reply_table(table: DashMap<u16, PendingReply>) -> Map<u16, (Seq<u8>, Seq<Fd>)>;

/// The special queues that a table holds, by resource: the bytes of the
/// events of each, oldest first.
pub uninterp spec fn shared_special_table(table: DashMap<XID, VecDeque<Event>>) -> Map<XID, Seq<Seq<u8>>>;

/// The extension opcodes that a table holds, by key.
pub uninterp spec fn shared_extension_table(table: DashMap<[u8; 24], u8>) -> Map<Seq<u8>, u8>;

/// `DashMap::new`: a map without entries.
#[verifier::external_body]
pub(crate) fn shared_requests_new() -> (table: DashMap<u16, PendingRequest>)
    ensures
        shared_request_table(table) == (Map::<u16, PendingRequest>::empty()),
{
    DashMap::new()
}

/// `DashMap::insert`: the value stands under the key afterwards; what stood
/// there before is returned.
#[verifier::external_body]
pub(crate) fn shared_requests_insert(
    table: &mut DashMap<u16, PendingRequest>,
    sequence: u16,
    pending: PendingRequest,
) -> (displaced: Option<PendingRequest>)
    ensures
        shared_request_table(*final(table)) == shared_request_table(*old(table)).insert(
            sequence,
            pending,
        ),
        displaced == lookup(shared_request_table(*old(table)), sequence),
{
    table.insert(sequence, pending)
}

/// `DashMap::remove`: the key's entry is gone afterwards; its value is
/// returned, without the key.
#[verifier::external_body]
pub(crate) fn shared_requests_remove(
    table: &mut DashMap<u16, PendingRequest>,
    sequence: u16,
) -> (removed: Option<PendingRequest>)
    ensures
        shared_request_table(*final(table)) == shared_request_table(*old(table)).remove(sequence),
        removed == lookup(shared_request_table(*old(table)), sequence),
{
    table.remove(&sequence).map(|entry| entry.1)
}

/// `DashMap::get`, with the value copied out of the guard: the value under
/// the key.
#[verifier::external_body]
pub(crate) fn shared_requests_get(
    table: &DashMap<u16, PendingRequest>,
    sequence: u16,
) -> (found: Option<PendingRequest>)
    ensures
        found == lookup(shared_request_table(*table), sequence),
{
    table.get(&sequence).map(|entry| *entry)
}

/// `DashMap::contains_key`: whether the key has an entry.
#[verifier::external_body]
pub(crate) fn shared_requests_contains(
    table: &DashMap<u16, PendingRequest>,
    sequence: u16,
) -> (found: bool)
    ensures
        found == shared_request_table(*table).contains_key(sequence),
{
    table.contains_key(&sequence)
}

/// `DashMap::retain` with [`survives_unchecked`] as the test: the entries
/// whose value passes stay as they are, the others are gone.
#[verifier::external_body]
pub(crate) fn shared_requests_retain_unchecked(table: &mut DashMap<u16, PendingRequest>)
    ensures
        shared_request_table(*final(table)) == Map::new(
            |seq: u16|
                shared_request_table(*old(table)).contains_key(seq) && !shared_request_table(
                    *old(table),
                )[seq].flags.checked,
            |seq: u16| shared_request_table(*old(table))[seq],
        ),
{
    table.retain(|_, pending| survives_unchecked(pending))
}

/// `DashMap::new`: a map without entries.
#[verifier::external_body]
pub(crate) fn shared_errors_new() -> (table: DashMap<u16, BreadError>)
    ensures
        shared_error_table(table) == (Map::<u16, BreadError>::empty()),
{
    DashMap::new()
}

/// `DashMap::insert`: the value stands under the key afterwards; what stood
/// there before is returned.
#[verifier::external_body]
pub(crate) fn shared_errors_insert(
    table: &mut DashMap<u16, BreadError>,
    sequence: u16,
    err: BreadError,
) -> (displaced: Option<BreadError>)
    ensures
        shared_error_table(*final(table)) == shared_error_table(*old(table)).insert(sequence, err),
        displaced == lookup(shared_error_table(*old(table)), sequence),
{
    table.insert(sequence, err)
}

/// `DashMap::remove`: the key's entry is gone afterwards; its value is
/// returned, without the key.
#[verifier::external_body]
pub(crate) fn shared_errors_remove(
    table: &mut DashMap<u16, BreadError>,
    sequence: u16,
) -> (removed: Option<BreadError>)
    ensures
        shared_error_table(*final(table)) == shared_error_table(*old(table)).remove(sequence),
        removed == lookup(shared_error_table(*old(table)), sequence),
{
    table.remove(&sequence).map(|entry| entry.1)
}

/// `DashMap::new`: a map without entries.
#[verifier::external_body]
pub(crate) fn shared_replies_new() -> (table: DashMap<u16, PendingReply>)
    ensures
        shared_reply_table(table) == (Map::<u16, (Seq<u8>, Seq<Fd>)>::empty()),
{
    DashMap::new()
}

/// `DashMap::insert`: the value stands under the key afterwards; what stood
/// there before is returned.
#[verifier::external_body]
pub(crate) fn shared_replies_insert(
    table: &mut DashMap<u16, PendingReply>,
    sequence: u16,
    reply: PendingReply,
) -> (displaced: Option<PendingReply>)
    ensures
        shared_reply_table(*final(table)) == shared_reply_table(*old(table)).insert(
            sequence,
            (reply.bytes@, reply.fds@),
        ),
        displaced is Some == shared_reply_table(*old(table)).contains_key(sequence),
{
    table.insert(sequence, reply)
}

/// `DashMap::remove`: the key's entry is gone afterwards; its value is
/// returned, without the key.
#[verifier::external_body]
pub(crate) fn shared_replies_remove(
    table: &mut DashMap<u16, PendingReply>,
    sequence: u16,
) -> (removed: Option<PendingReply>)
    ensures
        shared_reply_table(*final(table)) == shared_reply_table(*old(table)).remove(sequence),
        removed is Some == shared_reply_table(*old(table)).contains_key(sequence),
        removed matches Some(reply) ==> (reply.bytes@, reply.fds@) == shared_reply_table(
            *old(table),
        )[sequence],
{
    table.remove(&sequence).map(|entry| entry.1)
}

/// `DashMap::with_capacity`: a map without entries.
#[verifier::external_body]
pub(crate) fn shared_special_with_capacity(
    capacity: usize,
) -> (table: DashMap<XID, VecDeque<Event>>)
    ensures
        shared_special_table(table) == (Map::<XID, Seq<Seq<u8>>>::empty()),
{
    DashMap::with_capacity(capacity)
}

/// `DashMap::insert`: the queue stands under the key afterwards; whether
/// one stood there before shows in the result.
#[verifier::external_body]
pub(crate) fn shared_special_insert(
    table: &mut DashMap<XID, VecDeque<Event>>,
    eid: XID,
    queue: VecDeque<Event>,
) -> (displaced: Option<VecDeque<Event>>)
    ensures
        shared_special_table(*final(table)) == shared_special_table(*old(table)).insert(
            eid,
            event_views(queue@),
        ),
        displaced is Some == shared_special_table(*old(table)).contains_key(eid),
{
    table.insert(eid, queue)
}

/// `DashMap::remove`: the key's entry is gone afterwards; its queue is
/// returned, without the key.
#[verifier::external_body]
pub(crate) fn shared_special_remove(
    table: &mut DashMap<XID, VecDeque<Event>>,
    eid: XID,
) -> (removed: Option<VecDeque<Event>>)
    ensures
        shared_special_table(*final(table)) == shared_special_table(*old(table)).remove(eid),
        removed is Some == shared_special_table(*old(table)).contains_key(eid),
        removed matches Some(queue) ==> event_views(queue@) == shared_special_table(
            *old(table),
        )[eid],
{
    table.remove(&eid).map(|entry| entry.1)
}

/// `DashMap::contains_key`: whether the key has an entry.
#[verifier::external_body]
pub(crate) fn shared_special_contains(
    table: &DashMap<XID, VecDeque<Event>>,
    eid: XID,
) -> (found: bool)
    ensures
        found == shared_special_table(*table).contains_key(eid),
{
    table.contains_key(&eid)
}

/// `DashMap::new`: a map without entries.
#[verifier::external_body]
pub(crate) fn shared_extensions_new() -> (table: DashMap<[u8; 24], u8>)
    ensures
        shared_extension_table(table) == (Map::<Seq<u8>, u8>::empty()),
{
    DashMap::new()
}

/// `DashMap::get`, with the value copied out of the guard: the value under
/// the key.
#[verifier::external_body]
pub(crate) fn shared_extensions_get(
    table: &DashMap<[u8; 24], u8>,
    key: &[u8; 24],
) -> (code: Option<u8>)
    ensures
        code == lookup(shared_extension_table(*table), key@),
{
    table.get(key).map(|entry| *entry)
}

/// `DashMap::insert`: the value stands under the key afterwards; what stood
/// there before is returned.
#[verifier::external_body]
pub(crate) fn shared_extensions_insert(
    table: &mut DashMap<[u8; 24], u8>,
    key: [u8; 24],
    code: u8,
) -> (displaced: Option<u8>)
    ensures
        shared_extension_table(*final(table)) == shared_extension_table(*old(table)).insert(
            key@,
            code,
        ),
        displaced == lookup(shared_extension_table(*old(table)), key@),
{
    table.insert(key, code)
}

/// The bytes of the events that a queue holds, oldest first.
pub uninterp spec fn shared_event_queue(queue: ConcurrentQueue<Event>) -> Seq<Seq<u8>>;

/// Whether a queue takes every item pushed to it: it has no bound and was
/// not closed.
pub uninterp spec fn queue_accepts(queue: ConcurrentQueue<Event>) -> bool;

/// `ConcurrentQueue::unbounded`: an empty queue without a bound, not
/// closed.
#[verifier::external_body]
pub(crate) fn shared_events_new() -> (queue: ConcurrentQueue<Event>)
    ensures
        shared_event_queue(queue) == (Seq::<Seq<u8>>::empty()),
        queue_accepts(queue),
{
    ConcurrentQueue::unbounded()
}

/// `ConcurrentQueue::push`: the item goes to the back of the queue, or
/// comes back where the queue is full or closed.
#[verifier::external_body]
pub(crate) fn shared_events_push(queue: &mut ConcurrentQueue<Event>, ev: Event) -> (refused: Option<
    Event,
>)
    ensures
        queue_accepts(*final(queue)) == queue_accepts(*old(queue)),
        queue_accepts(*old(queue)) ==> refused is None,
        refused is None ==> shared_event_queue(*final(queue)) == shared_event_queue(
            *old(queue),
        ).push(ev@),
        refused is Some ==> refused == Some(ev) && shared_event_queue(*final(queue))
            == shared_event_queue(*old(queue)),
{
    queue.push(ev).err().map(|refusal| refusal.into_inner())
}

/// `ConcurrentQueue::pop`: the item at the front of the queue, or nothing
/// where the queue is empty.
#[verifier::external_body]
pub(crate) fn shared_events_pop(queue: &mut ConcurrentQueue<Event>) -> (ev: Option<Event>)
    ensures
        queue_accepts(*final(queue)) == queue_accepts(*old(queue)),
        shared_event_queue(*old(queue)).len() == 0 ==> ev is None && shared_event_queue(
            *final(queue),
        ) == shared_event_queue(*old(queue)),
        shared_event_queue(*old(queue)).len() > 0 ==> ev is Some && ev.unwrap()@
            == shared_event_queue(*old(queue))[0] && shared_event_queue(*final(queue))
            == shared_event_queue(*old(queue)).drop_first(),
{
    queue.pop().ok()
}

} // verus!
