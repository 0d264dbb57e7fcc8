//! The state that a display keeps between calls, and the two ways of
//! holding it.

use crate::error::BreadError;
use crate::event::Event;
use crate::request::{Fd, PendingRequest};
use crate::xid::{XidState, XID};
use vstd::prelude::*;

pub mod sync;
pub mod sync_tables;
pub mod unsync;
pub mod unsync_tables;

verus! {

/// The state of a display as plain values: what every variant stands for.
pub struct VariantState {
    /// The main event queue, oldest first.
    pub events: Seq<Seq<u8>>,
    /// The special event queues by the resource they belong to.
    pub special: Map<XID, Seq<Seq<u8>>>,
    /// The requests whose answer has not arrived.
    pub requests: Map<u16, PendingRequest>,
    /// The errors that arrived and were not retrieved.
    pub errors: Map<u16, BreadError>,
    /// The replies that arrived and were not retrieved: bytes and file
    /// descriptors.
    pub replies: Map<u16, (Seq<u8>, Seq<Fd>)>,
    /// The major opcodes of the extensions that were asked for, by key.
    pub extensions: Map<Seq<u8>, u8>,
    /// The sequence number of the next request.
    pub request_number: u16,
    pub xid: XidState,
    pub checked: bool,
    pub wm_protocols_atom: Option<u32>,
}

/// The value that `table` holds under `key`, if any.
pub open spec fn lookup<K, V>(table: Map<K, V>, key: K) -> Option<V> {
    if table.contains_key(key) {
        Some(table[key])
    } else {
        None
    }
}

/// A reply that arrived and waits to be retrieved.
#[derive(Debug)]
pub struct PendingReply {
    pub bytes: Vec<u8>,
    pub fds: Vec<Fd>,
}

impl VariantState {
    /// The state of a display that was just made: nothing queued, nothing
    /// pending, checked mode on, no identifiers granted.
    pub open spec fn initial() -> VariantState {
        VariantState {
            events: Seq::empty(),
            special: Map::empty(),
            requests: Map::empty(),
            errors: Map::empty(),
            replies: Map::empty(),
            extensions: Map::empty(),
            request_number: 0,
            xid: XidState::fresh(0, 0),
            checked: true,
            wm_protocols_atom: None,
        }
    }

    /// The sequence number that follows `n`.
    pub open spec fn following(n: u16) -> u16 {
        if n == u16::MAX {
            0
        } else {
            (n + 1) as u16
        }
    }

    /// The pending requests that stay when checked mode ends.
    pub open spec fn unchecked_requests(self) -> Map<u16, PendingRequest> {
        Map::new(
            |seq: u16| self.requests.contains_key(seq) && !self.requests[seq].flags.checked,
            |seq: u16| self.requests[seq],
        )
    }

    /// Whether every sequence number stands in at most one of the three
    /// pending tables: the request waits, or its reply is kept, or its
    /// error.
    pub open spec fn answers_apart(self) -> bool {
        forall|seq: u16|
            {
                &&& !(#[trigger] self.requests.contains_key(seq) && self.replies.contains_key(seq))
                &&& !(self.requests.contains_key(seq) && self.errors.contains_key(seq))
                &&& !(self.replies.contains_key(seq) && self.errors.contains_key(seq))
            }
    }

    /// The state after the oldest event was taken from the main queue, if
    /// there was one.
    pub open spec fn after_pop(self) -> VariantState {
        if self.events.len() > 0 {
            VariantState { events: self.events.drop_first(), ..self }
        } else {
            self
        }
    }

    /// The state after the oldest event was taken from the special queue of
    /// `eid`, if there was one.
    pub open spec fn after_special_pop(self, eid: XID) -> VariantState {
        if self.special.contains_key(eid) && self.special[eid].len() > 0 {
            VariantState {
                special: self.special.insert(eid, self.special[eid].drop_first()),
                ..self
            }
        } else {
            self
        }
    }

    /// The state after `event` went to the special queue of `eid`.
    pub open spec fn with_special_event(self, eid: XID, event: Seq<u8>) -> VariantState {
        VariantState { special: self.special.insert(eid, self.special[eid].push(event)), ..self }
    }
}

/// A queue after `n` items were taken from its front.
pub open spec fn after_pops(queue: Seq<Seq<u8>>, n: nat) -> Seq<Seq<u8>>
    decreases n,
{
    if n == 0 {
        queue
    } else {
        after_pops(queue, (n - 1) as nat).drop_first()
    }
}

/// Taking `n` items from the front of a queue that holds at least as many
/// leaves the items behind them, in their order.
pub proof fn lemma_after_pops(queue: Seq<Seq<u8>>, n: nat)
    requires
        n <= queue.len(),
    ensures
        after_pops(queue, n) == queue.subrange(n as int, queue.len() as int),
    decreases n,
{
    if n == 0 {
        assert(queue.subrange(0, queue.len() as int) =~= queue);
    } else {
        lemma_after_pops(queue, (n - 1) as nat);
        assert(queue.subrange(n - 1, queue.len() as int).drop_first() =~= queue.subrange(
            n as int,
            queue.len() as int,
        ));
    }
}

/// A queue hands its events out in the order in which they were put in:
/// what is queued keeps its place when an event is added, and the event
/// added to a queue of `n` events is the one that comes out after those `n`
/// were taken.
pub proof fn lemma_queue_keeps_order(queue: Seq<Seq<u8>>, event: Seq<u8>)
    ensures
        forall|i: int| 0 <= i < queue.len() ==> queue.push(event)[i] == queue[i],
        forall|n: nat| n < queue.len() ==> after_pops(queue.push(event), n)[0] == queue[n as int],
        after_pops(queue.push(event), queue.len())[0] == event,
        after_pops(queue.push(event), queue.len() + 1).len() == 0,
{
    assert forall|n: nat| n < queue.len() implies after_pops(queue.push(event), n)[0]
        == queue[n as int] by {
        lemma_after_pops(queue.push(event), n);
    }
    lemma_after_pops(queue.push(event), queue.len());
    lemma_after_pops(queue.push(event), queue.len() + 1);
}

/// The sequence number handed out `n` requests after `start`.
pub open spec fn nth_sequence(start: u16, n: nat) -> u16
    decreases n,
{
    if n == 0 {
        start
    } else {
        VariantState::following(nth_sequence(start, (n - 1) as nat))
    }
}

/// Sequence numbers count up modulo 2^16.
pub proof fn lemma_nth_sequence(start: u16, n: nat)
    ensures
        nth_sequence(start, n) == (start + n) % 0x1_0000,
    decreases n,
{
    if n > 0 {
        lemma_nth_sequence(start, (n - 1) as nat);
    }
}

/// No sequence number comes twice among 2^16 requests in a row; the one
/// after them is the first again.
pub proof fn lemma_sequences_distinct_within_window(start: u16, i: nat, j: nat)
    requires
        i < j,
        j - i < 0x1_0000,
    ensures
        nth_sequence(start, i) != nth_sequence(start, j),
        nth_sequence(start, i + 0x1_0000) == nth_sequence(start, i),
{
    lemma_nth_sequence(start, i);
    lemma_nth_sequence(start, j);
    lemma_nth_sequence(start, i + 0x1_0000);
}

/// The way a display holds its state. Both variants behave alike; they
/// differ in the collections underneath.
pub trait DisplayVariant: Sized {
    /// The state that this variant stands for.
    spec fn state(&self) -> VariantState;

    /// What holds of every variant that the functions below made.
    spec fn wf(&self) -> bool;

    fn new() -> (variant: Self)
        ensures
            variant.wf(),
            variant.state() == VariantState::initial(),
    ;

    fn set_xid_base(&mut self, base: XID, mask: XID)
        requires
            old(self).wf(),
        ensures
            final(self).wf(),
            final(self).state() == (VariantState {
                xid: XidState::fresh(base, mask),
                ..old(self).state()
            }),
    ;

    fn queue_event(&mut self, ev: Event)
        requires
            old(self).wf(),
        ensures
            final(self).wf(),
            final(self).state() == (VariantState {
                events: old(self).state().events.push(ev@),
                ..old(self).state()
            }),
    ;

    fn pop_event(&mut self) -> (ev: Option<Event>)
        requires
            old(self).wf(),
        ensures
            final(self).wf(),
            ev is Some == (old(self).state().events.len() > 0),
            ev matches Some(e) ==> e@ == old(self).state().events[0],
            final(self).state() == old(self).state().after_pop(),
    ;

    fn register_special_event(&mut self, eid: XID)
        requires
            old(self).wf(),
        ensures
            final(self).wf(),
            final(self).state() == (VariantState {
                special: old(self).state().special.insert(eid, Seq::empty()),
                ..old(self).state()
            }),
    ;

    fn unregister_special_event(&mut self, eid: XID)
        requires
            old(self).wf(),
        ensures
            final(self).wf(),
            final(self).state() == (VariantState {
                special: old(self).state().special.remove(eid),
                ..old(self).state()
            }),
    ;

    fn is_queue_registered(&self, eid: XID) -> (registered: bool)
        requires
            self.wf(),
        ensures
            registered == self.state().special.contains_key(eid),
    ;

    /// Takes the oldest event from the special queue of `eid`. Without such
    /// a queue there is nothing to take from.
    fn get_special_event(&mut self, eid: XID) -> (ev: Result<Option<Event>, BreadError>)
        requires
            old(self).wf(),
        ensures
            final(self).wf(),
            ev is Ok == old(self).state().special.contains_key(eid),
            ev is Err ==> ev == Err::<Option<Event>, BreadError>(BreadError::NoSpecialQueue(eid)),
            ev matches Ok(got) ==> got is Some == (old(self).state().special[eid].len() > 0),
            ev matches Ok(Some(e)) ==> e@ == old(self).state().special[eid][0],
            final(self).state() == old(self).state().after_special_pop(eid),
    ;

    fn generate_xid(&mut self) -> (id: Result<XID, BreadError>)
        requires
            old(self).wf(),
        ensures
            final(self).wf(),
            id == (match old(self).state().xid.peek() {
                Some(x) => Ok::<XID, BreadError>(x),
                None => Err::<XID, BreadError>(BreadError::NoXID),
            }),
            final(self).state() == (VariantState {
                xid: old(self).state().xid.advance(),
                ..old(self).state()
            }),
    ;

    fn checked(&self) -> (checked: bool)
        requires
            self.wf(),
        ensures
            checked == self.state().checked,
    ;

    /// Turns checked mode on or off. Turning it off drops the pending
    /// requests that were only recorded because of it.
    fn set_checked(&mut self, checked: bool)
        requires
            old(self).wf(),
        ensures
            final(self).wf(),
            final(self).state() == (VariantState {
                checked,
                requests: if checked {
                    old(self).state().requests
                } else {
                    old(self).state().unchecked_requests()
                },
                ..old(self).state()
            }),
    ;

    fn pending_request_contains(&self, sequence: u16) -> (pending: bool)
        requires
            self.wf(),
        ensures
            pending == self.state().requests.contains_key(sequence),
    ;

    fn get_pending_request(&self, sequence: u16) -> (pending: Option<PendingRequest>)
        requires
            self.wf(),
        ensures
            pending == (if self.state().requests.contains_key(sequence) {
                Some(self.state().requests[sequence])
            } else {
                None
            }),
    ;

    fn remove_pending_request(&mut self, sequence: u16) -> (pending: Option<PendingRequest>)
        requires
            old(self).wf(),
        ensures
            final(self).wf(),
            pending == (if old(self).state().requests.contains_key(sequence) {
                Some(old(self).state().requests[sequence])
            } else {
                None
            }),
            final(self).state() == (VariantState {
                requests: old(self).state().requests.remove(sequence),
                ..old(self).state()
            }),
    ;

    fn retrieve_pending_error(&mut self, sequence: u16) -> (err: Option<BreadError>)
        requires
            old(self).wf(),
        ensures
            final(self).wf(),
            err == (if old(self).state().errors.contains_key(sequence) {
                Some(old(self).state().errors[sequence])
            } else {
                None
            }),
            final(self).state() == (VariantState {
                errors: old(self).state().errors.remove(sequence),
                ..old(self).state()
            }),
    ;

    fn retrieve_pending_reply(&mut self, sequence: u16) -> (reply: Option<(Vec<u8>, Vec<Fd>)>)
        requires
            old(self).wf(),
        ensures
            final(self).wf(),
            reply is Some == old(self).state().replies.contains_key(sequence),
            reply matches Some(r) ==> (r.0@, r.1@) == old(self).state().replies[sequence],
            final(self).state() == (VariantState {
                replies: old(self).state().replies.remove(sequence),
                ..old(self).state()
            }),
    ;

    /// Records a pending request; one already recorded under the sequence
    /// number gives way.
    fn insert_pending_request(&mut self, sequence: u16, pr: PendingRequest)
        requires
            old(self).wf(),
        ensures
            final(self).wf(),
            final(self).state() == (VariantState {
                requests: old(self).state().requests.insert(sequence, pr),
                ..old(self).state()
            }),
    ;

    fn insert_pending_error(&mut self, sequence: u16, err: BreadError)
        requires
            old(self).wf(),
        ensures
            final(self).wf(),
            final(self).state() == (VariantState {
                errors: old(self).state().errors.insert(sequence, err),
                ..old(self).state()
            }),
    ;

    fn insert_pending_reply(&mut self, sequence: u16, bytes: Vec<u8>, fds: Vec<Fd>)
        requires
            old(self).wf(),
        ensures
            final(self).wf(),
            final(self).state() == (VariantState {
                replies: old(self).state().replies.insert(sequence, (bytes@, fds@)),
                ..old(self).state()
            }),
    ;

    /// Puts `event` into the special queue of `eid`, or hands it back where
    /// no such queue is registered.
    fn try_queue_special_event(&mut self, event: Event, eid: XID) -> (queued: Result<XID, Event>)
        requires
            old(self).wf(),
        ensures
            final(self).wf(),
            old(self).state().special.contains_key(eid) ==> queued == Ok::<XID, Event>(eid)
                && final(self).state() == old(self).state().with_special_event(eid, event@),
            !old(self).state().special.contains_key(eid) ==> queued == Err::<XID, Event>(event)
                && final(self).state() == old(self).state(),
    ;

    /// Hands out the sequence number of the next request.
    fn next_request_number(&mut self) -> (sequence: u16)
        requires
            old(self).wf(),
        ensures
            final(self).wf(),
            sequence == old(self).state().request_number,
            final(self).state() == (VariantState {
                request_number: VariantState::following(sequence),
                ..old(self).state()
            }),
    ;

    /// Does nothing: handing out a sequence number is what commits it.
    fn advance_request_number(&mut self)
        requires
            old(self).wf(),
        ensures
            final(self).wf(),
            final(self).state() == old(self).state(),
    ;

    fn get_ext_opcode(&self, sarr: &[u8; 24]) -> (code: Option<u8>)
        requires
            self.wf(),
        ensures
            code == (if self.state().extensions.contains_key(sarr@) {
                Some(self.state().extensions[sarr@])
            } else {
                None
            }),
    ;

    fn insert_ext_opcode(&mut self, sarr: [u8; 24], code: u8)
        requires
            old(self).wf(),
        ensures
            final(self).wf(),
            final(self).state() == (VariantState {
                extensions: old(self).state().extensions.insert(sarr@, code),
                ..old(self).state()
            }),
    ;

    fn wm_protocols_atom(&self) -> (atom: Option<u32>)
        requires
            self.wf(),
        ensures
            atom == self.state().wm_protocols_atom,
    ;

    /// Remembers the atom; 0 is no atom.
    fn set_wm_protocols_atom(&mut self, n: u32)
        requires
            old(self).wf(),
        ensures
            final(self).wf(),
            final(self).state() == (VariantState {
                wm_protocols_atom: if n == 0 {
                    None
                } else {
                    Some(n)
                },
                ..old(self).state()
            }),
    ;
}

} // verus!
