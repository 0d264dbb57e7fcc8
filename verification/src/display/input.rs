//! The inbound path: one message of the server is read, mended where the
//! server is known to err, completed, and routed.

use crate::display::{connection_after, Connection, Display, Packet, Traffic};
use crate::error::{parse_x_error, BreadError, IoErrorKind};
use crate::event::{special_target, Event};
use crate::packet::PacketBuf;
use crate::request::{Fd, PendingRequest, PendingRequestFlags, RequestWorkaround};
use crate::variant::{DisplayVariant, VariantState};
use crate::wire::{
    additional_bytes, read_u16, read_u32, spec_additional_bytes, u16_at, u32_at, with_u32_at,
    write_u32, TYPE_ERROR, TYPE_REPLY,
};
use crate::xid::XID;
use vstd::prelude::*;

verus! {

/// Whether every byte is zero.
pub open spec fn all_zero(bytes: Seq<u8>) -> bool {
    forall|i: int| 0 <= i < bytes.len() ==> bytes[i] == 0u8
}

/// Tells whether every byte of `bytes` is zero.
pub fn is_all_zero(bytes: &[u8]) -> (zero: bool)
    ensures
        zero == all_zero(bytes@),
{
    let mut i: usize = 0;
    while i < bytes.len()
        invariant
            i <= bytes@.len(),
            forall|j: int| 0 <= j < i ==> bytes@[j] == 0u8,
        decreases bytes@.len() - i,
    {
        if bytes[i] != 0 {
            return false;
        }
        i = i + 1;
    }
    true
}

/// The length that a GLX reply should have announced: twice the product of
/// the visuals counted in bytes 8 to 11 and the properties counted in bytes
/// 12 to 15, cut to 32 bits.
pub open spec fn glx_true_length(msg: Seq<u8>) -> u32 {
    ((u32_at(msg, 8) as int * u32_at(msg, 12) as int * 2) % 0x1_0000_0000) as u32
}

/// What the inbound path makes of one complete message.
pub struct Routed {
    /// The state afterwards.
    pub state: VariantState,
    /// What the wait that read the message returns.
    pub result: Result<(), BreadError>,
}

impl VariantState {
    /// Whether `msg` is a reply to a request that the GLX length workaround
    /// was recorded for.
    pub open spec fn needs_glx_fix(self, msg: Seq<u8>) -> bool {
        msg[0] == TYPE_REPLY && self.requests.contains_key(u16_at(msg, 2)) && self.requests[u16_at(
            msg,
            2,
        )].flags.workaround == RequestWorkaround::GlxFbconfigBug
    }

    /// The first unit of a message as it is read on: with the true length
    /// in bytes 4 to 7 where the server is known to report half of it.
    pub open spec fn mended(self, msg: Seq<u8>) -> Seq<u8> {
        if self.needs_glx_fix(msg) {
            with_u32_at(msg, 4, glx_true_length(msg))
        } else {
            msg
        }
    }

    /// Whether the first unit of a message is a reply that no request waits
    /// for.
    pub open spec fn is_stray_reply(self, msg: Seq<u8>) -> bool {
        msg[0] == TYPE_REPLY && !self.requests.contains_key(u16_at(msg, 2))
    }

    /// Where one complete message of at least 32 bytes goes. A reply is
    /// stored under its sequence number, or dropped where the request asked
    /// for that, and ends the request's wait; one that no request waits for
    /// is refused. An all-zero unit means that the server hung up. An error
    /// is stored under its sequence number where a request waits there, and
    /// is handed to the caller otherwise. Anything else is an event: a
    /// generic one goes to the special queue of its resource where one is
    /// registered, every other one to the main queue.
    pub open spec fn dispatch(self, msg: Seq<u8>, fds: Seq<Fd>) -> Routed {
        let sequence = u16_at(msg, 2);
        if msg[0] == TYPE_REPLY {
            if !self.requests.contains_key(sequence) {
                Routed { state: self, result: Err(BreadError::NoMatchingRequest(sequence)) }
            } else if self.requests[sequence].flags.discard_reply {
                Routed {
                    state: VariantState { requests: self.requests.remove(sequence), ..self },
                    result: Ok(()),
                }
            } else {
                Routed {
                    state: VariantState {
                        requests: self.requests.remove(sequence),
                        replies: self.replies.insert(sequence, (msg, fds)),
                        ..self
                    },
                    result: Ok(()),
                }
            }
        } else if msg[0] == TYPE_ERROR {
            if all_zero(msg) {
                Routed { state: self, result: Err(BreadError::ClosedConnection) }
            } else if self.requests.contains_key(sequence) {
                Routed {
                    state: VariantState {
                        requests: self.requests.remove(sequence),
                        errors: self.errors.insert(sequence, parse_x_error(msg)),
                        ..self
                    },
                    result: Ok(()),
                }
            } else {
                Routed { state: self, result: Err(parse_x_error(msg)) }
            }
        } else {
            match special_target(msg) {
                Some(eid) if self.special.contains_key(eid) => Routed {
                    state: self.with_special_event(eid, msg),
                    result: Ok(()),
                },
                _ => Routed {
                    state: VariantState { events: self.events.push(msg), ..self },
                    result: Ok(()),
                },
            }
        }
    }
}

/// Whether `after` differs from `before` in nothing but what inbound
/// messages change: the queues and the pending tables.
pub open spec fn same_settings(before: VariantState, after: VariantState) -> bool {
    &&& after.extensions == before.extensions
    &&& after.request_number == before.request_number
    &&& after.xid == before.xid
    &&& after.checked == before.checked
    &&& after.wm_protocols_atom == before.wm_protocols_atom
}

/// A reply is routed only where a request waited under its sequence number,
/// and the request waits no longer afterwards.
pub proof fn lemma_reply_needs_pending_request(state: VariantState, msg: Seq<u8>, fds: Seq<Fd>)
    requires
        msg.len() >= 32,
        msg[0] == TYPE_REPLY,
    ensures
        state.dispatch(msg, fds).result is Ok <==> state.requests.contains_key(u16_at(msg, 2)),
        !state.requests.contains_key(u16_at(msg, 2)) ==> state.dispatch(msg, fds).result == Err::<
            (),
            BreadError,
        >(BreadError::NoMatchingRequest(u16_at(msg, 2))) && state.dispatch(msg, fds).state
            == state,
        !state.dispatch(msg, fds).state.requests.contains_key(u16_at(msg, 2)),
{
}

/// A unit of zeros where an error would stand means that the server closed
/// the connection; nothing is routed.
pub proof fn lemma_all_zero_unit_closes(state: VariantState, msg: Seq<u8>, fds: Seq<Fd>)
    requires
        msg.len() >= 32,
        all_zero(msg),
    ensures
        state.dispatch(msg, fds).result == Err::<(), BreadError>(BreadError::ClosedConnection),
        state.dispatch(msg, fds).state == state,
{
    assert(msg[0] == 0u8);
}

/// An error that no request waits for is what the wait returns; one that a
/// request waits for is kept for that request.
pub proof fn lemma_error_routing(state: VariantState, msg: Seq<u8>, fds: Seq<Fd>)
    requires
        msg.len() >= 32,
        msg[0] == TYPE_ERROR,
        !all_zero(msg),
    ensures
        !state.requests.contains_key(u16_at(msg, 2)) ==> state.dispatch(msg, fds).result == Err::<
            (),
            BreadError,
        >(parse_x_error(msg)) && state.dispatch(msg, fds).state == state,
        state.requests.contains_key(u16_at(msg, 2)) ==> state.dispatch(msg, fds).result is Ok
            && state.dispatch(msg, fds).state.errors[u16_at(msg, 2)] == parse_x_error(msg)
            && !state.dispatch(msg, fds).state.requests.contains_key(u16_at(msg, 2)),
{
}

/// A generic event goes to the special queue of the resource it names where
/// one is registered, behind what is queued there, and leaves the main
/// queue alone; every other event goes to the back of the main queue.
pub proof fn lemma_event_routing(state: VariantState, msg: Seq<u8>, fds: Seq<Fd>)
    requires
        msg.len() >= 32,
        msg[0] != TYPE_REPLY,
        msg[0] != TYPE_ERROR,
    ensures
        state.dispatch(msg, fds).result is Ok,
        same_settings(state, state.dispatch(msg, fds).state),
        match special_target(msg) {
            Some(eid) if state.special.contains_key(eid) => state.dispatch(msg, fds).state.events
                == state.events && state.dispatch(msg, fds).state.special[eid]
                == state.special[eid].push(msg),
            _ => state.dispatch(msg, fds).state.events == state.events.push(msg)
                && state.dispatch(msg, fds).state.special == state.special,
        },
{
}

/// Whatever arrives, and however much of it, routing leaves alone what only
/// the client decides.
pub proof fn lemma_replay_keeps_settings(state: VariantState, msgs: Seq<Packet>)
    ensures
        same_settings(state, state.replay(msgs)),
    decreases msgs.len(),
{
    if msgs.len() > 0 {
        lemma_replay_keeps_settings(state, msgs.drop_last());
    }
}

/// What a wait does to the state is what routing the message that it
/// received does, and nothing where it received none.
pub proof fn lemma_one_wait_replays(
    before: VariantState,
    got_before: Seq<Packet>,
    after: VariantState,
    got_after: Seq<Packet>,
    done: Result<(), BreadError>,
)
    requires
        one_wait(before, got_before, after, got_after, done),
    ensures
        got_before.is_prefix_of(got_after),
        got_after.len() <= got_before.len() + 1,
        after == before.replay(newly_received(got_before, got_after)),
{
    let fresh = newly_received(got_before, got_after);
    if got_after.len() == got_before.len() + 1 && got_after.drop_last() == got_before {
        assert(got_before.is_prefix_of(got_after)) by {
            assert(got_before =~= got_after.subrange(0, got_before.len() as int));
        }
        assert(fresh.len() == 1);
        assert(fresh.last() == got_after.last());
        assert(fresh.drop_last() =~= Seq::<Packet>::empty());
        assert(before.replay(fresh.drop_last()) == before);
    } else {
        assert(fresh =~= Seq::<Packet>::empty());
    }
}

/// Routing one more message continues a replay.
pub proof fn lemma_replay_continues(start: VariantState, got_start: Seq<Packet>, got_before: Seq<
    Packet,
>, got_after: Seq<Packet>)
    requires
        got_start.is_prefix_of(got_before),
        got_before.is_prefix_of(got_after),
        got_after.len() <= got_before.len() + 1,
    ensures
        got_start.is_prefix_of(got_after),
        start.replay(newly_received(got_start, got_before)).replay(
            newly_received(got_before, got_after),
        ) == start.replay(newly_received(got_start, got_after)),
{
    let early = newly_received(got_start, got_before);
    let late = newly_received(got_before, got_after);
    let all = newly_received(got_start, got_after);
    assert(got_start.is_prefix_of(got_after)) by {
        assert(got_start =~= got_before.subrange(0, got_start.len() as int));
        assert(got_before =~= got_after.subrange(0, got_before.len() as int));
        assert(got_start =~= got_after.subrange(0, got_start.len() as int));
    }
    assert(got_before =~= got_after.subrange(0, got_before.len() as int));
    if got_after.len() == got_before.len() {
        assert(late =~= Seq::<Packet>::empty());
        assert(got_after =~= got_before);
        assert(all =~= early);
    } else {
        assert(late.len() == 1);
        assert(late.drop_last() =~= Seq::<Packet>::empty());
        assert(start.replay(early).replay(late.drop_last()) == start.replay(early));
        assert(all.drop_last() =~= early);
        assert(all.last() == late.last());
    }
}

/// Routing keeps every sequence number in at most one of the three pending
/// tables: an answer takes the place of the request it answers.
pub proof fn lemma_dispatch_keeps_answers_apart(state: VariantState, msg: Seq<u8>, fds: Seq<Fd>)
    requires
        state.answers_apart(),
    ensures
        state.dispatch(msg, fds).state.answers_apart(),
{
    let after = state.dispatch(msg, fds).state;
    assert forall|seq: u16|
        {
            &&& !(#[trigger] after.requests.contains_key(seq) && after.replies.contains_key(seq))
            &&& !(after.requests.contains_key(seq) && after.errors.contains_key(seq))
            &&& !(after.replies.contains_key(seq) && after.errors.contains_key(seq))
        } by {
        assert(!(state.requests.contains_key(seq) && state.replies.contains_key(seq)));
        assert(!(state.requests.contains_key(u16_at(msg, 2)) && state.replies.contains_key(
            u16_at(msg, 2),
        )));
    }
}

/// Whatever arrives, routing leaves alone what only the client decides:
/// the extension cache, the sequence counter, the identifier range and the
/// modes.
pub proof fn lemma_dispatch_keeps_settings(state: VariantState, msg: Seq<u8>, fds: Seq<Fd>)
    ensures
        same_settings(state, state.dispatch(msg, fds).state),
{
}

/// The length of the message whose first unit, mended, is `head`: the
/// unit, and for a reply or a generic event four bytes more for each unit
/// that bytes 4 to 7 announce.
pub open spec fn announced_len(head: Seq<u8>) -> nat {
    match spec_additional_bytes(head) {
        Some(units) => (32 + 4 * units) as nat,
        None => 32,
    }
}

impl VariantState {
    /// The message `raw` as it is routed: its first unit mended, the rest
    /// as it came.
    pub open spec fn as_routed(self, raw: Seq<u8>) -> Seq<u8> {
        self.mended(raw.subrange(0, 32)) + raw.subrange(32, raw.len() as int)
    }
}

impl VariantState {
    /// The state after the messages `msgs`, as the connection gave them,
    /// were routed one after the other.
    pub open spec fn replay(self, msgs: Seq<Packet>) -> VariantState
        decreases msgs.len(),
    {
        if msgs.len() == 0 {
            self
        } else {
            let before = self.replay(msgs.drop_last());
            before.dispatch(before.as_routed(msgs.last().bytes), msgs.last().fds).state
        }
    }
}

/// The messages of `after` that came behind those of `before`.
pub open spec fn newly_received(before: Seq<Packet>, after: Seq<Packet>) -> Seq<Packet> {
    after.subrange(before.len() as int, after.len() as int)
}

/// Whether one wait can lead from the state `before`, with `got_before`
/// received, to `after` with `got_after` and the result `done`. Either
/// nothing was routed and the wait failed; or one more message was read in
/// full, as long as its mended first unit announces, and was routed.
pub open spec fn one_wait(
    before: VariantState,
    got_before: Seq<Packet>,
    after: VariantState,
    got_after: Seq<Packet>,
    done: Result<(), BreadError>,
) -> bool {
    ||| after == before && got_after == got_before && done is Err
    ||| {
        &&& got_after.len() == got_before.len() + 1
        &&& got_after.drop_last() == got_before
        &&& got_after.last().bytes.len() == announced_len(
            before.mended(got_after.last().bytes.subrange(0, 32)),
        )
        &&& before.dispatch(before.as_routed(got_after.last().bytes), got_after.last().fds)
            == (Routed { state: after, result: done })
    }
}

impl<Conn: Connection, Var: DisplayVariant> Display<Conn, Var> {
    /// Records that the request numbered `req` awaits an answer.
    pub fn expect_reply(&mut self, req: u16, flags: PendingRequestFlags)
        requires
            old(self).wf(),
        ensures
            final(self).wf(),
            final(self).connected() == old(self).connected(),
            final(self).traffic() == old(self).traffic(),
            final(self).state() == (VariantState {
                requests: old(self).state().requests.insert(
                    req,
                    PendingRequest { request: req, flags },
                ),
                ..old(self).state()
            }),
    {
        let pereq = PendingRequest { request: req, flags };
        self.variant.insert_pending_request(req, pereq);
    }

    /// Puts a generic event into the special queue of the resource it names,
    /// and hands every other event back, as well as one whose resource has
    /// no queue.
    pub fn filter_into_special_event(&mut self, event: Event) -> (queued: Result<XID, Event>)
        requires
            old(self).wf(),
        ensures
            final(self).wf(),
            final(self).connected() == old(self).connected(),
            final(self).traffic() == old(self).traffic(),
            match special_target(event@) {
                Some(eid) if old(self).state().special.contains_key(eid) => queued == Ok::<
                    XID,
                    Event,
                >(eid) && final(self).state() == old(self).state().with_special_event(eid, event@),
                _ => queued == Err::<XID, Event>(event) && final(self).state() == old(self).state(),
            },
    {
        match event.special_target() {
            None => Err(event),
            Some(eid) => self.variant.try_queue_special_event(event, eid),
        }
    }

    /// Writes the true length into the head of a reply whose request the GLX
    /// length workaround was recorded for. A reply that no request waits for
    /// is refused.
    pub fn fix_glx_workaround(&self, bytes: &mut PacketBuf) -> (done: Result<(), BreadError>)
        requires
            self.wf(),
            old(bytes)@.len() >= 32,
        ensures
            self.state().is_stray_reply(old(bytes)@) ==> done == Err::<(), BreadError>(
                BreadError::NoMatchingRequest(u16_at(old(bytes)@, 2)),
            ) && final(bytes)@ == old(bytes)@,
            !self.state().is_stray_reply(old(bytes)@) ==> done is Ok && final(bytes)@
                == self.state().mended(old(bytes)@),
    {
        if bytes.get(0) == TYPE_REPLY {
            let sequence = read_u16(bytes.as_slice(), 2);
            match self.variant.get_pending_request(sequence) {
                None => {
                    return Err(BreadError::NoMatchingRequest(sequence));
                },
                Some(pereq) => {
                    if let RequestWorkaround::GlxFbconfigBug = pereq.flags.workaround {
                        let visuals: u32 = read_u32(bytes.as_slice(), 8);
                        let props: u32 = read_u32(bytes.as_slice(), 12);
                        assert((visuals as int) * (props as int) <= 0xffff_ffff * 0xffff_ffff)
                            by (nonlinear_arith)
                            requires
                                0 <= visuals <= 0xffff_ffff,
                                0 <= props <= 0xffff_ffff,
                        ;
                        let product: u64 = (visuals as u64) * (props as u64) % 0x8000_0000;
                        let length: u32 = ((product * 2) % 0x1_0000_0000) as u32;
                        assert(length == glx_true_length(bytes@)) by {
                            let v = visuals as int;
                            let p = props as int;
                            assert(((v * p) % 0x8000_0000) * 2 % 0x1_0000_0000 == (v * p * 2)
                                % 0x1_0000_0000) by (nonlinear_arith);
                        }
                        write_u32(bytes.as_mut_slice(), 4, length);
                    }
                },
            }
        }
        Ok(())
    }

    /// Reads one message of the server and routes it: the first unit, then,
    /// for a reply or a generic event, as many more 4-byte units as bytes 4
    /// to 7 announce. A display without a connection fails at once; so does a
    /// message longer than this machine can hold.
    pub fn wait(&mut self) -> (done: Result<(), BreadError>)
        requires
            old(self).wf(),
        ensures
            final(self).wf(),
            connection_after(old(self).connected(), final(self).connected(), done is Ok),
            final(self).sent() == old(self).sent(),
            one_wait(
                old(self).state(),
                old(self).received(),
                final(self).state(),
                final(self).received(),
                done,
            ),
            !old(self).connected() ==> done == Err::<(), BreadError>(BreadError::ClosedConnection),
            !final(self).connected() ==> final(self).state() == old(self).state(),
            !final(self).connected() ==> final(self).received() == old(self).received(),
    {
        let mut bytes = PacketBuf::zeroed(32);
        let mut fds: Vec<Fd> = Vec::new();
        let read = match &mut self.connection {
            None => {
                return Err(BreadError::ClosedConnection);
            },
            Some(conn) => conn.read_packet(bytes.as_mut_slice(), &mut fds),
        };
        if let Err(e) = read {
            self.connection = None;
            return Err(e);
        }
        let ghost before = self.state();
        let ghost first = bytes@;
        if let Err(e) = self.fix_glx_workaround(&mut bytes) {
            return Err(e);
        }
        let ghost mended = bytes@;
        if let Some(units) = additional_bytes(bytes.as_slice()) {
            if units != 0 {
                if units > (isize::MAX as usize - 32) / 4 {
                    return Err(BreadError::Io(IoErrorKind::Other));
                }
                bytes.resize_zeroed(32 + units * 4);
                let read = match &mut self.connection {
                    None => {
                        return Err(BreadError::ClosedConnection);
                    },
                    Some(conn) => {
                        let (_, rest) = bytes.as_mut_slice().split_at_mut(32);
                        conn.read_packet(rest, &mut fds)
                    },
                };
                if let Err(e) = read {
                    self.connection = None;
                    return Err(e);
                }
            }
        }
        let ghost raw = first + bytes@.subrange(32, bytes@.len() as int);
        proof {
            assert(raw.subrange(0, 32) =~= first);
            assert(raw.subrange(32, raw.len() as int) =~= bytes@.subrange(32, bytes@.len() as int));
            assert(bytes@.subrange(0, 32) =~= mended);
            assert(before.as_routed(raw) =~= bytes@);
            self.traffic@ = Traffic {
                received: self.traffic@.received.push(Packet { bytes: raw, fds: fds@ }),
                ..self.traffic@
            };
            assert(self.received().drop_last() =~= old(self).received());
        }
        self.process_bytes(bytes, fds)
    }

    /// Routes one complete message.
    pub fn process_bytes(
        &mut self,
        bytes: PacketBuf,
        fds: Vec<Fd>,
    ) -> (done: Result<(), BreadError>)
        requires
            old(self).wf(),
            bytes@.len() >= 32,
        ensures
            final(self).wf(),
            final(self).connected() == old(self).connected(),
            final(self).traffic() == old(self).traffic(),
            final(self).state() == old(self).state().dispatch(bytes@, fds@).state,
            done == old(self).state().dispatch(bytes@, fds@).result,
    {
        let head = bytes.as_slice();
        let sequence = read_u16(head, 2);
        let first = head[0];
        let ghost before = self.state();
        if first == TYPE_REPLY {
            match self.variant.remove_pending_request(sequence) {
                None => {
                    assert(before.requests.remove(sequence) =~= before.requests);
                    Err(BreadError::NoMatchingRequest(sequence))
                },
                Some(pereq) => {
                    if !pereq.flags.discard_reply {
                        self.variant.insert_pending_reply(sequence, bytes.into_vec(), fds);
                    }
                    Ok(())
                },
            }
        } else if first == TYPE_ERROR {
            if is_all_zero(head) {
                return Err(BreadError::ClosedConnection);
            }
            let err = BreadError::from_x_error(head);
            match self.variant.remove_pending_request(sequence) {
                Some(_) => {
                    self.variant.insert_pending_error(sequence, err);
                    Ok(())
                },
                None => {
                    assert(before.requests.remove(sequence) =~= before.requests);
                    Err(err)
                },
            }
        } else {
            let event = Event::from_bytes(bytes);
            if let Err(event) = self.filter_into_special_event(event) {
                self.variant.queue_event(event);
            }
            Ok(())
        }
    }
}

} // verus!
