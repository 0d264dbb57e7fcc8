//! The display: one connection to the server, and the state that tells
//! what is under way on it.

use crate::error::BreadError;
use crate::event::Event;
use crate::request::Fd;
use crate::variant::{DisplayVariant, VariantState};
use crate::xid::XID;
use vstd::prelude::*;

pub mod functions;
pub mod input;
pub mod output;
pub mod query_extension;

verus! {

/// The byte stream to the server, as whoever embeds the display provides
/// it.
pub trait Connection {
    /// Writes all of `bytes`, and hands `fds` over beside them where the
    /// platform can.
    fn send_packet(&mut self, bytes: &[u8], fds: &mut Vec<Fd>) -> (done: Result<(), BreadError>);

    /// Fills `bytes` from the stream, and appends to `fds` the file
    /// descriptors that came with them.
    fn read_packet(&mut self, bytes: &mut [u8], fds: &mut Vec<Fd>) -> (done: Result<(), BreadError>)
        ensures
            final(bytes)@.len() == old(bytes)@.len(),
    ;
}

/// Bytes and the file descriptors that travel beside them.
pub struct Packet {
    pub bytes: Seq<u8>,
    pub fds: Seq<Fd>,
}

/// What went over a display's connection, oldest first.
pub struct Traffic {
    /// The packets that the display handed to its connection and that the
    /// connection took.
    pub sent: Seq<Packet>,
    /// The messages that the display read in full from its connection, as
    /// the connection gave them.
    pub received: Seq<Packet>,
}

/// How a call that uses the transport leaves the connection: the display
/// keeps it unless the transport failed, and then the call failed too. A
/// display never gains a connection.
pub open spec fn connection_after(before: bool, after: bool, succeeded: bool) -> bool {
    (after ==> before) && (succeeded ==> after == before)
}

/// A connection to the X server together with the client's side of its
/// state. A failure of the transport costs the display its connection.
pub struct Display<Conn, Var> {
    pub(crate) connection: Option<Conn>,
    pub(crate) variant: Var,
    pub(crate) traffic: Ghost<Traffic>,
}

impl<Conn: Connection, Var: DisplayVariant> Display<Conn, Var> {
    /// The state that the display is in.
    pub closed spec fn state(&self) -> VariantState {
        self.variant.state()
    }

    /// What holds of every display that the functions of this library made.
    pub closed spec fn wf(&self) -> bool {
        self.variant.wf()
    }

    /// Whether the display has a connection.
    pub closed spec fn connected(&self) -> bool {
        self.connection is Some
    }

    /// What went over the display's connection.
    pub closed spec fn traffic(&self) -> Traffic {
        self.traffic@
    }

    /// The packets that this display handed to its connection and that the
    /// connection took, oldest first.
    pub open spec fn sent(&self) -> Seq<Packet> {
        self.traffic().sent
    }

    /// The messages that this display read in full from its connection,
    /// oldest first.
    pub open spec fn received(&self) -> Seq<Packet> {
        self.traffic().received
    }

    /// A display on `connection`, with nothing under way.
    pub fn from_connection(connection: Conn) -> (display: Self)
        ensures
            display.wf(),
            display.connected(),
            display.state() == VariantState::initial(),
            display.traffic() == (Traffic { sent: Seq::empty(), received: Seq::empty() }),
    {
        Display {
            connection: Some(connection),
            variant: Var::new(),
            traffic: Ghost(Traffic { sent: Seq::empty(), received: Seq::empty() }),
        }
    }

    /// A display without a connection: everything that needs one fails.
    pub fn disconnected() -> (display: Self)
        ensures
            display.wf(),
            !display.connected(),
            display.state() == VariantState::initial(),
            display.traffic() == (Traffic { sent: Seq::empty(), received: Seq::empty() }),
    {
        Display {
            connection: None,
            variant: Var::new(),
            traffic: Ghost(Traffic { sent: Seq::empty(), received: Seq::empty() }),
        }
    }

    /// The display's state, to look at.
    pub fn variant(&self) -> (variant: &Var)
        ensures
            variant.state() == self.state(),
            variant.wf() == self.wf(),
    {
        &self.variant
    }

    /// The display's state, to change through the variant's own functions.
    pub fn variant_mut(&mut self) -> (variant: &mut Var)
        ensures
            variant.state() == old(self).state(),
            variant.wf() == old(self).wf(),
            final(self).state() == final(variant).state(),
            final(self).wf() == final(variant).wf(),
            final(self).connected() == old(self).connected(),
            final(self).traffic() == old(self).traffic(),
    {
        &mut self.variant
    }

    /// Takes the connection out of the display.
    pub fn into_connection(self) -> (connection: Option<Conn>)
        ensures
            connection is Some == self.connected(),
    {
        self.connection
    }

    /// Tells the display which identifiers the server granted.
    pub fn set_xid_base(&mut self, base: XID, mask: XID)
        requires
            old(self).wf(),
        ensures
            final(self).wf(),
            final(self).connected() == old(self).connected(),
            final(self).traffic() == old(self).traffic(),
            final(self).state() == (VariantState {
                xid: crate::xid::XidState::fresh(base, mask),
                ..old(self).state()
            }),
    {
        self.variant.set_xid_base(base, mask)
    }

    /// Issues a resource identifier.
    pub fn generate_xid(&mut self) -> (id: Result<XID, BreadError>)
        requires
            old(self).wf(),
        ensures
            final(self).wf(),
            final(self).connected() == old(self).connected(),
            final(self).traffic() == old(self).traffic(),
            id == (match old(self).state().xid.peek() {
                Some(x) => Ok::<XID, BreadError>(x),
                None => Err::<XID, BreadError>(BreadError::NoXID),
            }),
            final(self).state() == (VariantState {
                xid: old(self).state().xid.advance(),
                ..old(self).state()
            }),
    {
        self.variant.generate_xid()
    }

    /// Whether every request is tracked for errors.
    pub fn checked(&self) -> (checked: bool)
        requires
            self.wf(),
        ensures
            checked == self.state().checked,
    {
        self.variant.checked()
    }

    /// Turns checked mode on or off; turning it off drops the pending
    /// requests that were only recorded because of it.
    pub fn set_checked(&mut self, checked: bool)
        requires
            old(self).wf(),
        ensures
            final(self).wf(),
            final(self).connected() == old(self).connected(),
            final(self).traffic() == old(self).traffic(),
            final(self).state() == (VariantState {
                checked,
                requests: if checked {
                    old(self).state().requests
                } else {
                    old(self).state().unchecked_requests()
                },
                ..old(self).state()
            }),
    {
        self.variant.set_checked(checked)
    }

    /// Takes the oldest event from the main queue.
    pub fn pop_event(&mut self) -> (ev: Option<Event>)
        requires
            old(self).wf(),
        ensures
            final(self).wf(),
            final(self).connected() == old(self).connected(),
            final(self).traffic() == old(self).traffic(),
            ev is Some == (old(self).state().events.len() > 0),
            ev matches Some(e) ==> e@ == old(self).state().events[0],
            final(self).state() == old(self).state().after_pop(),
    {
        self.variant.pop_event()
    }

    /// Opens a special event queue for the resource `eid`.
    pub fn register_special_event(&mut self, eid: XID)
        requires
            old(self).wf(),
        ensures
            final(self).wf(),
            final(self).connected() == old(self).connected(),
            final(self).traffic() == old(self).traffic(),
            final(self).state() == (VariantState {
                special: old(self).state().special.insert(eid, Seq::empty()),
                ..old(self).state()
            }),
    {
        self.variant.register_special_event(eid)
    }

    /// Drops the special event queue of the resource `eid`.
    pub fn unregister_special_event(&mut self, eid: XID)
        requires
            old(self).wf(),
        ensures
            final(self).wf(),
            final(self).connected() == old(self).connected(),
            final(self).traffic() == old(self).traffic(),
            final(self).state() == (VariantState {
                special: old(self).state().special.remove(eid),
                ..old(self).state()
            }),
    {
        self.variant.unregister_special_event(eid)
    }

    /// Takes the oldest event from the special queue of `eid`. Without such
    /// a queue there is nothing to take from.
    pub fn get_special_event(&mut self, eid: XID) -> (ev: Result<Option<Event>, BreadError>)
        requires
            old(self).wf(),
        ensures
            final(self).wf(),
            final(self).connected() == old(self).connected(),
            final(self).traffic() == old(self).traffic(),
            ev is Ok == old(self).state().special.contains_key(eid),
            ev is Err ==> ev == Err::<Option<Event>, BreadError>(BreadError::NoSpecialQueue(eid)),
            ev matches Ok(got) ==> got is Some == (old(self).state().special[eid].len() > 0),
            ev matches Ok(Some(e)) ==> e@ == old(self).state().special[eid][0],
            final(self).state() == old(self).state().after_special_pop(eid),
    {
        self.variant.get_special_event(eid)
    }
}

} // verus!
