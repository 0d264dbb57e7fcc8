//! The hash tables of the single-threaded variant: `hashbrown::HashMap`, and
//! what is taken for granted of it.

use crate::error::BreadError;
use crate::event::{event_views, Event};
use crate::request::{survives_unchecked, Fd, PendingRequest};
use crate::variant::{lookup, PendingReply};
use crate::xid::XID;
use hashbrown::HashMap;
use std::collections::VecDeque;
use vstd::prelude::*;

verus! {

/// `hashbrown::HashMap`, as a type whose inside stays closed.
#[verifier::external_type_specification]
#[verifier::external_body]
#[verifier::reject_recursive_types(K)]
#[verifier::reject_recursive_types(V)]
#[verifier::reject_recursive_types(S)]
pub struct ExHashMap<K, V, S>(hashbrown::HashMap<K, V, S>);

/// `hashbrown::hash_map::DefaultHashBuilder`, the hasher that the maps are
/// made with, as a type whose inside stays closed.
#[verifier::external_type_specification]
#[verifier::external_body]
pub struct ExDefaultHashBuilder(hashbrown::hash_map::DefaultHashBuilder);

/// The pending requests that a table holds, by sequence number.
pub uninterp spec fn request_table(table: HashMap<u16, PendingRequest>) -> Map<u16, PendingRequest>;

/// The errors that a table holds, by sequence number.
pub uninterp spec fn error_table(table: HashMap<u16, BreadError>) -> Map<u16, BreadError>;

/// The replies that a table holds, by sequence number: bytes and file
/// descriptors of each.
pub uninterp spec fn reply_table(table: HashMap<u16, PendingReply>) -> Map<u16, (Seq<u8>, Seq<Fd>)>;

/// The special queues that a table holds, by resource: the bytes of the
/// events of each, oldest first.
pub uninterp spec fn special_table(table: HashMap<XID, VecDeque<Event>>) -> Map<XID, Seq<Seq<u8>>>;

/// The extension opcodes that a table holds, by key.
pub uninterp spec fn extension_table(table: HashMap<[u8; 24], u8>) -> Map<Seq<u8>, u8>;

/// `HashMap::new`: a map without entries.
#[verifier::external_body]
pub(crate) fn requests_new() -> (table: HashMap<u16, PendingRequest>)
    ensures
        request_table(table) == (Map::<u16, PendingRequest>::empty()),
{
    HashMap::new()
}

/// `HashMap::insert`: the value stands under the key afterwards; what stood
/// there before is returned.
#[verifier::external_body]
pub(crate) fn requests_insert(
    table: &mut HashMap<u16, PendingRequest>,
    sequence: u16,
    pending: PendingRequest,
) -> (displaced: Option<PendingRequest>)
    ensures
        request_table(*final(table)) == request_table(*old(table)).insert(sequence, pending),
        displaced == lookup(request_table(*old(table)), sequence),
{
    table.insert(sequence, pending)
}

/// `HashMap::remove`: the key's entry is gone afterwards; its value is
/// returned.
#[verifier::external_body]
pub(crate) fn requests_remove(table: &mut HashMap<u16, PendingRequest>, sequence: u16) -> (removed:
    Option<PendingRequest>)
    ensures
        request_table(*final(table)) == request_table(*old(table)).remove(sequence),
        removed == lookup(request_table(*old(table)), sequence),
{
    table.remove(&sequence)
}

/// `HashMap::get`, with the value copied: the value under the key.
#[verifier::external_body]
pub(crate) fn requests_get(table: &HashMap<u16, PendingRequest>, sequence: u16) -> (found: Option<
    PendingRequest,
>)
    ensures
        found == lookup(request_table(*table), sequence),
{
    table.get(&sequence).copied()
}

/// `HashMap::contains_key`: whether the key has an entry.
#[verifier::external_body]
pub(crate) fn requests_contains(
    table: &HashMap<u16, PendingRequest>,
    sequence: u16,
) -> (found: bool)
    ensures
        found == request_table(*table).contains_key(sequence),
{
    table.contains_key(&sequence)
}

/// `HashMap::retain` with [`survives_unchecked`] as the test: the entries
/// whose value passes stay as they are, the others are gone.
#[verifier::external_body]
pub(crate) fn requests_retain_unchecked(table: &mut HashMap<u16, PendingRequest>)
    ensures
        request_table(*final(table)) == Map::new(
            |seq: u16|
                request_table(*old(table)).contains_key(seq) && !request_table(
                    *old(table),
                )[seq].flags.checked,
            |seq: u16| request_table(*old(table))[seq],
        ),
{
    table.retain(|_, pending| survives_unchecked(pending))
}

/// `HashMap::new`: a map without entries.
#[verifier::external_body]
pub(crate) fn errors_new() -> (table: HashMap<u16, BreadError>)
    ensures
        error_table(table) == (Map::<u16, BreadError>::empty()),
{
    HashMap::new()
}

/// `HashMap::insert`: the value stands under the key afterwards; what stood
/// there before is returned.
#[verifier::external_body]
pub(crate) fn errors_insert(
    table: &mut HashMap<u16, BreadError>,
    sequence: u16,
    err: BreadError,
) -> (displaced: Option<BreadError>)
    ensures
        error_table(*final(table)) == error_table(*old(table)).insert(sequence, err),
        displaced == lookup(error_table(*old(table)), sequence),
{
    table.insert(sequence, err)
}

/// `HashMap::remove`: the key's entry is gone afterwards; its value is
/// returned.
#[verifier::external_body]
pub(crate) fn errors_remove(
    table: &mut HashMap<u16, BreadError>,
    sequence: u16,
) -> (removed: Option<BreadError>)
    ensures
        error_table(*final(table)) == error_table(*old(table)).remove(sequence),
        removed == lookup(error_table(*old(table)), sequence),
{
    table.remove(&sequence)
}

/// `HashMap::new`: a map without entries.
#[verifier::external_body]
pub(crate) fn replies_new() -> (table: HashMap<u16, PendingReply>)
    ensures
        reply_table(table) == (Map::<u16, (Seq<u8>, Seq<Fd>)>::empty()),
{
    HashMap::new()
}

/// `HashMap::insert`: the value stands under the key afterwards; what stood
/// there before is returned.
#[verifier::external_body]
pub(crate) fn replies_insert(
    table: &mut HashMap<u16, PendingReply>,
    sequence: u16,
    reply: PendingReply,
) -> (displaced: Option<PendingReply>)
    ensures
        reply_table(*final(table)) == reply_table(*old(table)).insert(
            sequence,
            (reply.bytes@, reply.fds@),
        ),
        displaced is Some == reply_table(*old(table)).contains_key(sequence),
{
    table.insert(sequence, reply)
}

/// `HashMap::remove`: the key's entry is gone afterwards; its value is
/// returned.
#[verifier::external_body]
pub(crate) fn replies_remove(
    table: &mut HashMap<u16, PendingReply>,
    sequence: u16,
) -> (removed: Option<PendingReply>)
    ensures
        reply_table(*final(table)) == reply_table(*old(table)).remove(sequence),
        removed is Some == reply_table(*old(table)).contains_key(sequence),
        removed matches Some(reply) ==> (reply.bytes@, reply.fds@) == reply_table(
            *old(table),
        )[sequence],
{
    table.remove(&sequence)
}

/// `HashMap::with_capacity`: a map without entries.
#[verifier::external_body]
pub(crate) fn special_with_capacity(capacity: usize) -> (table: HashMap<XID, VecDeque<Event>>)
    ensures
        special_table(table) == (Map::<XID, Seq<Seq<u8>>>::empty()),
{
    HashMap::with_capacity(capacity)
}

/// `HashMap::insert`: the queue stands under the key afterwards; whether
/// one stood there before shows in the result.
#[verifier::external_body]
pub(crate) fn special_insert(
    table: &mut HashMap<XID, VecDeque<Event>>,
    eid: XID,
    queue: VecDeque<Event>,
) -> (displaced: Option<VecDeque<Event>>)
    ensures
        special_table(*final(table)) == special_table(*old(table)).insert(eid, event_views(queue@)),
        displaced is Some == special_table(*old(table)).contains_key(eid),
{
    table.insert(eid, queue)
}

/// `HashMap::remove`: the key's entry is gone afterwards.
#[verifier::external_body]
pub(crate) fn special_remove(
    table: &mut HashMap<XID, VecDeque<Event>>,
    eid: XID,
) -> (removed: Option<VecDeque<Event>>)
    ensures
        special_table(*final(table)) == special_table(*old(table)).remove(eid),
        removed is Some == special_table(*old(table)).contains_key(eid),
{
    table.remove(&eid)
}

/// `HashMap::contains_key`: whether the key has an entry.
#[verifier::external_body]
pub(crate) fn special_contains(table: &HashMap<XID, VecDeque<Event>>, eid: XID) -> (found: bool)
    ensures
        found == special_table(*table).contains_key(eid),
{
    table.contains_key(&eid)
}

/// `HashMap::get_mut`: the queue under the key, to be changed in place;
/// the other entries stay as they are.
#[verifier::external_body]
pub(crate) fn special_get_mut(
    table: &mut HashMap<XID, VecDeque<Event>>,
    eid: XID,
) -> (queue: Option<&mut VecDeque<Event>>)
    ensures
        !special_table(*old(table)).contains_key(eid) ==> queue is None && special_table(
            *final(table),
        ) == special_table(*old(table)),
        special_table(*old(table)).contains_key(eid) ==> queue is Some && event_views(
            queue.unwrap()@,
        ) == special_table(*old(table))[eid] && special_table(*final(table)) == special_table(
            *old(table),
        ).insert(eid, event_views(final(queue.unwrap())@)),
{
    table.get_mut(&eid)
}

/// `HashMap::new`: a map without entries.
#[verifier::external_body]
pub(crate) fn extensions_new() -> (table: HashMap<[u8; 24], u8>)
    ensures
        extension_table(table) == (Map::<Seq<u8>, u8>::empty()),
{
    HashMap::new()
}

/// `HashMap::get`, with the value copied: the value under the key.
#[verifier::external_body]
pub(crate) fn extensions_get(table: &HashMap<[u8; 24], u8>, key: &[u8; 24]) -> (code: Option<u8>)
    ensures
        code == lookup(extension_table(*table), key@),
{
    table.get(key).copied()
}

/// `HashMap::insert`: the value stands under the key afterwards; what stood
/// there before is returned.
#[verifier::external_body]
pub(crate) fn extensions_insert(
    table: &mut HashMap<[u8; 24], u8>,
    key: [u8; 24],
    code: u8,
) -> (displaced: Option<u8>)
    ensures
        extension_table(*final(table)) == extension_table(*old(table)).insert(key@, code),
        displaced == lookup(extension_table(*old(table)), key@),
{
    table.insert(key, code)
}

} // verus!
