//! The outbound path: a request is framed, numbered, recorded where an
//! answer is expected, and written out.

use crate::display::input::{
    lemma_one_wait_replays, lemma_replay_continues, newly_received, same_settings,
};
use crate::display::query_extension::{
    parse_query_extension_reply, query_info, query_packet, QueryExtensionReply,
    QueryExtensionRequest,
};
use crate::display::{connection_after, Connection, Display, Packet, Traffic};
use crate::error::{BreadError, IoErrorKind};
use crate::packet::PacketBuf;
use crate::request::{
    detect_glx_workaround, encode_frame, ext_key, info_of, needs_glx_workaround, spec_frame,
    string_as_array_bytes, Fd, PendingRequest, PendingRequestFlags, Request, RequestCookie,
    RequestInfo, RequestWorkaround,
};
use crate::variant::{lookup, DisplayVariant, VariantState};
use vstd::prelude::*;
use vstd::string::StringSliceAdditionalSpecFns;

verus! {

/// The flags recorded for the request `info` whose frame is `frame`, sent
/// while checked mode is `checked`.
pub open spec fn request_flags(
    info: RequestInfo,
    checked: bool,
    discard_reply: bool,
    frame: Seq<u8>,
) -> PendingRequestFlags {
    PendingRequestFlags {
        discard_reply,
        checked: info.reply_size == 0 && checked,
        expects_fds: info.reply_expects_fds,
        workaround: if needs_glx_workaround(info.extension, info.opcode, frame) {
            RequestWorkaround::GlxFbconfigBug
        } else {
            RequestWorkaround::NoWorkaround
        },
    }
}

/// The frame of the request `info` with the extension opcode `ext_opcode`.
pub open spec fn frame_of(info: RequestInfo, ext_opcode: Option<u8>) -> Seq<u8> {
    spec_frame(info.body, info.opcode, ext_opcode)
}

/// What goes to the connection for the request `info`: its frame and its
/// file descriptors.
pub open spec fn packet_of(info: RequestInfo, ext_opcode: Option<u8>) -> Packet {
    Packet { bytes: frame_of(info, ext_opcode), fds: info.fds }
}

impl VariantState {
    /// The state after a request was numbered: the next sequence number is
    /// taken, and the request is recorded where it has a reply or checked
    /// mode is on.
    pub open spec fn encoded(self, flags: PendingRequestFlags, reply_size: nat) -> VariantState {
        VariantState {
            request_number: VariantState::following(self.request_number),
            requests: if reply_size != 0 || self.checked {
                self.requests.insert(
                    self.request_number,
                    PendingRequest { request: self.request_number, flags },
                )
            } else {
                self.requests
            },
            ..self
        }
    }

    /// The state after the request `info` was numbered.
    pub open spec fn encoded_as(
        self,
        info: RequestInfo,
        ext_opcode: Option<u8>,
        discard_reply: bool,
    ) -> VariantState {
        self.encoded(
            request_flags(info, self.checked, discard_reply, frame_of(info, ext_opcode)),
            info.reply_size,
        )
    }
}

/// A request with a reply that was numbered and whose reply then arrives
/// under that number: the reply is routed, stands under the number that the
/// request went out with, and the request waits no longer.
pub proof fn lemma_round_trip(
    state: VariantState,
    info: RequestInfo,
    ext_opcode: Option<u8>,
    reply: Seq<u8>,
    fds: Seq<Fd>,
)
    requires
        info.reply_size > 0,
        reply.len() >= 32,
        reply[0] == crate::wire::TYPE_REPLY,
        crate::wire::u16_at(reply, 2) == state.request_number,
    ensures
        state.encoded_as(info, ext_opcode, false).requests.contains_key(state.request_number),
        state.encoded_as(info, ext_opcode, false).dispatch(reply, fds).result is Ok,
        state.encoded_as(info, ext_opcode, false).dispatch(
            reply,
            fds,
        ).state.replies[state.request_number] == (reply, fds),
        !state.encoded_as(info, ext_opcode, false).dispatch(
            reply,
            fds,
        ).state.requests.contains_key(state.request_number),
{
}

/// Numbering a request keeps every sequence number in at most one of the
/// three pending tables, as long as no answer is still kept under the
/// number that the request gets.
pub proof fn lemma_encode_keeps_answers_apart(
    state: VariantState,
    info: RequestInfo,
    ext_opcode: Option<u8>,
    discard_reply: bool,
)
    requires
        state.answers_apart(),
        !state.replies.contains_key(state.request_number),
        !state.errors.contains_key(state.request_number),
    ensures
        state.encoded_as(info, ext_opcode, discard_reply).answers_apart(),
{
    let after = state.encoded_as(info, ext_opcode, discard_reply);
    assert forall|seq: u16|
        {
            &&& !(#[trigger] after.requests.contains_key(seq) && after.replies.contains_key(seq))
            &&& !(after.requests.contains_key(seq) && after.errors.contains_key(seq))
            &&& !(after.replies.contains_key(seq) && after.errors.contains_key(seq))
        } by {
        assert(!(state.requests.contains_key(seq) && state.replies.contains_key(seq)));
    }
}

/// The extension opcode that a request of the extension `extension` goes
/// out with, as far as `state` tells: none for a core request, the cached
/// one for a request of an extension that was asked for. For an extension
/// not asked for yet there is no telling.
pub open spec fn known_opcode(
    extension: Option<Seq<u8>>,
    state: VariantState,
) -> Option<Option<u8>> {
    match extension {
        None => Some(None),
        Some(name) => if state.extensions.contains_key(ext_key(name)) {
            Some(Some(state.extensions[ext_key(name)]))
        } else {
            None
        },
    }
}

/// The answer that `state` keeps for the request numbered `sequence`: its
/// reply, or else its error.
pub open spec fn kept_answer(state: VariantState, sequence: u16) -> Option<
    Result<(Seq<u8>, Seq<Fd>), BreadError>,
> {
    if state.replies.contains_key(sequence) {
        Some(Ok(state.replies[sequence]))
    } else if state.errors.contains_key(sequence) {
        Some(Err(state.errors[sequence]))
    } else {
        None
    }
}

/// Whether taking the answer for the request numbered `sequence` out of
/// `replayed` leaves `after` and gives `answer`: the reply that is kept, or
/// else the error that is kept; where neither is kept, nothing is taken and
/// the wait for one has failed.
pub open spec fn answer_taken(
    replayed: VariantState,
    sequence: u16,
    after: VariantState,
    answer: Result<(Seq<u8>, Seq<Fd>), BreadError>,
) -> bool {
    match kept_answer(replayed, sequence) {
        Some(Ok(reply)) => answer == Ok::<(Seq<u8>, Seq<Fd>), BreadError>(reply) && after == (
        VariantState { replies: replayed.replies.remove(sequence), ..replayed }),
        Some(Err(err)) => answer == Err::<(Seq<u8>, Seq<Fd>), BreadError>(err) && after == (
        VariantState { errors: replayed.errors.remove(sequence), ..replayed }),
        None => answer is Err && after == replayed,
    }
}

/// An answer by the bytes and file descriptors that it holds.
pub open spec fn answer_view(answer: Result<(Vec<u8>, Vec<Fd>), BreadError>) -> Result<
    (Seq<u8>, Seq<Fd>),
    BreadError,
> {
    match answer {
        Ok(reply) => Ok((reply.0@, reply.1@)),
        Err(err) => Err(err),
    }
}

/// Whether nothing more went out, or nothing but the query for the
/// extension named `name`.
pub open spec fn query_sent_or_not(before: Seq<Packet>, after: Seq<Packet>, name: Seq<u8>) -> bool {
    after == before || after == before.push(query_packet(name))
}

/// Whether `after` has the settings of `before` but for the extension
/// cache, and for the sequence counter where a request was `numbered`.
pub open spec fn settings_kept(before: VariantState, after: VariantState, numbered: bool) -> bool {
    &&& after.request_number == (if numbered {
        VariantState::following(before.request_number)
    } else {
        before.request_number
    })
    &&& after.xid == before.xid
    &&& after.checked == before.checked
    &&& after.wm_protocols_atom == before.wm_protocols_atom
}

/// The error that says that the server lacks the extension named `name`.
pub open spec fn names_missing(err: BreadError, name: Seq<u8>) -> bool {
    err matches BreadError::ExtensionNotPresent(missing) && vstd::utf8::encode_utf8(missing@)
        == name
}

/// The state after the query for the extension named `name` was numbered.
pub open spec fn query_numbered(before: VariantState, name: Seq<u8>) -> VariantState {
    before.encoded_as(query_info(name), None, false)
}

/// What the server said of the extension named `name`, where the query
/// went out (`asked`), the messages `arrived` came in, and the reply among
/// them says that the extension is there.
pub open spec fn answered_reply(
    before: VariantState,
    name: Seq<u8>,
    asked: bool,
    arrived: Seq<Packet>,
) -> Option<QueryExtensionReply> {
    if name.len() > 0xffff || !asked {
        None
    } else {
        match kept_answer(query_numbered(before, name).replay(arrived), before.request_number) {
            Some(Ok(reply)) => if parse_query_extension_reply(reply.0).present {
                Some(parse_query_extension_reply(reply.0))
            } else {
                None
            },
            _ => None,
        }
    }
}

/// What asking the server for the extension named `name` comes to, from
/// the state `before` to `after` and the opcode or failure `answer`, where
/// `asked` tells whether the query went out and `arrived` is what came in
/// meanwhile. A name too long for a request changes nothing and counts as
/// an extension that is missing. Every other name has the query numbered
/// and recorded, whether or not it goes out then. Once it is out, the
/// messages that arrive are routed until the query's answer is among them;
/// the answer is taken, and is the extension's major opcode, or the failure
/// that the extension is missing, or the server's error.
pub open spec fn query_outcome(
    before: VariantState,
    connected: bool,
    name: Seq<u8>,
    asked: bool,
    arrived: Seq<Packet>,
    after: VariantState,
    answer: Result<u8, BreadError>,
) -> bool {
    if name.len() > 0xffff {
        &&& !asked
        &&& arrived.len() == 0
        &&& after == before
        &&& answer matches Err(err) && names_missing(err, name)
    } else if !asked {
        &&& arrived.len() == 0
        &&& after == query_numbered(before, name)
        &&& answer is Err
        &&& !connected ==> answer == Err::<u8, BreadError>(BreadError::ClosedConnection)
    } else {
        let replayed = query_numbered(before, name).replay(arrived);
        let sequence = before.request_number;
        match kept_answer(replayed, sequence) {
            Some(Ok(reply)) => {
                &&& after == (VariantState {
                    replies: replayed.replies.remove(sequence),
                    ..replayed
                })
                &&& if parse_query_extension_reply(reply.0).present {
                    answer == Ok::<u8, BreadError>(
                        parse_query_extension_reply(reply.0).major_opcode,
                    )
                } else {
                    answer matches Err(err) && names_missing(err, name)
                }
            },
            Some(Err(err)) => {
                &&& after == (VariantState {
                    errors: replayed.errors.remove(sequence),
                    ..replayed
                })
                &&& answer == Err::<u8, BreadError>(err)
            },
            None => after == replayed && answer is Err,
        }
    }
}

/// What sending the request `info` does to a display in the state `before`
/// with the traffic `traffic_before`. `failure` is the error that the
/// sending ended with, if it did.
///
/// A request too long for this machine to frame changes nothing. Where the
/// extension opcode is known, the request is numbered and recorded whether
/// or not the transport then takes it, and its frame is what goes out.
/// Where the opcode has to be asked for, the query comes first, as
/// [`query_outcome`] tells; with its answer the opcode is cached, and the
/// request is numbered, recorded and sent with it.
pub open spec fn request_sent(
    before: VariantState,
    traffic_before: Traffic,
    connected: bool,
    info: RequestInfo,
    discard_reply: bool,
    after: VariantState,
    traffic_after: Traffic,
    failure: Option<BreadError>,
) -> bool {
    let sent_before = traffic_before.sent;
    let sent_after = traffic_after.sent;
    if info.size + 3 > isize::MAX {
        &&& failure == Some(BreadError::Io(IoErrorKind::Other))
        &&& after == before
        &&& traffic_after == traffic_before
    } else {
        match known_opcode(info.extension, before) {
            Some(ext_opcode) => {
                &&& after == before.encoded_as(info, ext_opcode, discard_reply)
                &&& traffic_after.received == traffic_before.received
                &&& sent_after == (if failure is None {
                    sent_before.push(packet_of(info, ext_opcode))
                } else {
                    sent_before
                })
                &&& !connected ==> failure == Some(BreadError::ClosedConnection)
            },
            None => {
                let name = info.extension.unwrap();
                let asked = sent_after.len() > sent_before.len();
                let arrived = newly_received(traffic_before.received, traffic_after.received);
                let sequence = before.request_number;
                let replayed = query_numbered(before, name).replay(arrived);
                &&& traffic_before.received.is_prefix_of(traffic_after.received)
                &&& match answered_reply(before, name, asked, arrived) {
                    Some(reply) => {
                        &&& after == (VariantState {
                            replies: replayed.replies.remove(sequence),
                            extensions: before.extensions.insert(
                                ext_key(name),
                                reply.major_opcode,
                            ),
                            ..replayed
                        }).encoded_as(info, Some(reply.major_opcode), discard_reply)
                        &&& sent_after == (if failure is None {
                            sent_before.push(query_packet(name)).push(
                                packet_of(info, Some(reply.major_opcode)),
                            )
                        } else {
                            sent_before.push(query_packet(name))
                        })
                    },
                    None => {
                        &&& failure matches Some(err) && query_outcome(
                            before,
                            connected,
                            name,
                            asked,
                            arrived,
                            after,
                            Err(err),
                        )
                        &&& query_sent_or_not(sent_before, sent_after, name)
                    },
                }
            },
        }
    }
}

/// An extension is asked for once: when a request of an extension has gone
/// out, the extension's opcode is cached, and as long as the cache keeps
/// it, a further request of that extension goes out with that opcode and
/// without a query before it.
pub proof fn lemma_extension_asked_once(
    before: VariantState,
    traffic_before: Traffic,
    first: RequestInfo,
    first_discards: bool,
    between: VariantState,
    traffic_between: Traffic,
    later: VariantState,
    traffic_later: Traffic,
    second: RequestInfo,
    second_discards: bool,
    connected: bool,
    after: VariantState,
    traffic_after: Traffic,
    failure: Option<BreadError>,
)
    requires
        first.extension is Some,
        second.extension == first.extension,
        first.size + 3 <= isize::MAX,
        second.size + 3 <= isize::MAX,
        request_sent(
            before,
            traffic_before,
            true,
            first,
            first_discards,
            between,
            traffic_between,
            None,
        ),
        later.extensions == between.extensions,
        request_sent(
            later,
            traffic_later,
            connected,
            second,
            second_discards,
            after,
            traffic_after,
            failure,
        ),
    ensures
        known_opcode(second.extension, later) is Some,
        after.extensions == later.extensions,
        traffic_after.received == traffic_later.received,
        traffic_after.sent == (if failure is None {
            traffic_later.sent.push(
                packet_of(second, Some(later.extensions[ext_key(second.extension.unwrap())])),
            )
        } else {
            traffic_later.sent
        }),
{
}

/// The failure that a result holds.
pub open spec fn failure_of<T>(result: Result<T, BreadError>) -> Option<BreadError> {
    match result {
        Ok(_) => None,
        Err(err) => Some(err),
    }
}

/// How many messages a wait for an answer goes through before it gives up.
pub const WAIT_ROUNDS: u64 = 0xffff_ffff_ffff_ffff;

impl<Conn: Connection, Var: DisplayVariant> Display<Conn, Var> {
    /// Waits until the reply or the error for `cookie` has arrived, and
    /// takes it out of the display. What is routed meanwhile is routed as by
    /// [`Display::wait`]; an answer that is kept already is taken without a
    /// wait.
    pub fn reply_for<R: Request>(&mut self, cookie: &RequestCookie<R>) -> (answer: Result<
        (Vec<u8>, Vec<Fd>),
        BreadError,
    >)
        requires
            old(self).wf(),
        ensures
            final(self).wf(),
            connection_after(old(self).connected(), final(self).connected(), answer is Ok),
            final(self).sent() == old(self).sent(),
            old(self).received().is_prefix_of(final(self).received()),
            same_settings(old(self).state(), final(self).state()),
            answer_taken(
                old(self).state().replay(
                    newly_received(old(self).received(), final(self).received()),
                ),
                cookie.spec_sequence(),
                final(self).state(),
                answer_view(answer),
            ),
            kept_answer(old(self).state(), cookie.spec_sequence()) is Some ==> final(self).received() == old(self).received(),
            kept_answer(old(self).state(), cookie.spec_sequence()) is None && !old(self).connected() ==> answer == Err::<(Vec<u8>, Vec<Fd>), BreadError>(
                BreadError::ClosedConnection,
            ) && final(self).received() == old(self).received(),
    {
        let sequence = cookie.sequence();
        let mut rounds: u64 = WAIT_ROUNDS;
        let ghost start = self.state();
        let ghost got_start = self.received();
        proof {
            assert(newly_received(got_start, got_start) =~= Seq::<Packet>::empty());
        }
        loop
            invariant
                self.wf(),
                self.connected() == old(self).connected(),
                self.sent() == old(self).sent(),
                start == old(self).state(),
                got_start == old(self).received(),
                got_start.is_prefix_of(self.received()),
                self.state() == start.replay(newly_received(got_start, self.received())),
                same_settings(start, self.state()),
                sequence == cookie.spec_sequence(),
                rounds < WAIT_ROUNDS ==> kept_answer(start, sequence) is None && old(self).connected(),
                rounds == WAIT_ROUNDS ==> self.state() == start,
                rounds == WAIT_ROUNDS ==> self.received() == got_start,
            decreases rounds,
        {
            let ghost now = self.state();
            let ghost got_now = self.received();
            if let Some(reply) = self.variant.retrieve_pending_reply(sequence) {
                return Ok(reply);
            }
            assert(now.replies.remove(sequence) =~= now.replies);
            if let Some(err) = self.variant.retrieve_pending_error(sequence) {
                return Err(err);
            }
            assert(now.errors.remove(sequence) =~= now.errors);
            assert(self.state() == now);
            if rounds == 0 {
                return Err(BreadError::Io(IoErrorKind::TimedOut));
            }
            rounds = rounds - 1;
            let waited = self.wait();
            proof {
                lemma_one_wait_replays(now, got_now, self.state(), self.received(), waited);
                lemma_replay_continues(start, got_start, got_now, self.received());
            }
            if let Err(e) = waited {
                return Err(e);
            }
        }
    }

    /// The major opcode of the extension `extname`: from the cache where it
    /// is known, and from the server otherwise, whose answer is cached.
    pub fn get_ext_opcode(&mut self, extname: &str) -> (code: Result<u8, BreadError>)
        requires
            old(self).wf(),
        ensures
            final(self).wf(),
            connection_after(old(self).connected(), final(self).connected(), code is Ok),
            old(self).received().is_prefix_of(final(self).received()),
            settings_kept(
                old(self).state(),
                final(self).state(),
                lookup(old(self).state().extensions, ext_key(extname.spec_bytes())) is None
                    && extname.spec_bytes().len() <= 0xffff,
            ),
            match lookup(old(self).state().extensions, ext_key(extname.spec_bytes())) {
                Some(cached) => {
                    &&& code == Ok::<u8, BreadError>(cached)
                    &&& final(self).state() == old(self).state()
                    &&& final(self).traffic() == old(self).traffic()
                },
                None => {
                    &&& query_sent_or_not(
                        old(self).sent(),
                        final(self).sent(),
                        extname.spec_bytes(),
                    )
                    &&& query_outcome(
                        old(self).state(),
                        old(self).connected(),
                        extname.spec_bytes(),
                        final(self).sent().len() > old(self).sent().len(),
                        newly_received(old(self).received(), final(self).received()),
                        VariantState {
                            extensions: old(self).state().extensions,
                            ..final(self).state()
                        },
                        code,
                    )
                    &&& final(self).state().extensions == (match code {
                        Ok(major) => old(self).state().extensions.insert(
                            ext_key(extname.spec_bytes()),
                            major,
                        ),
                        Err(_) => old(self).state().extensions,
                    })
                },
            },
    {
        let sarr = string_as_array_bytes(extname);
        match self.variant.get_ext_opcode(&sarr) {
            Some(code) => Ok(code),
            None => {
                let ghost start = self.state();
                let reply = self.query_extension_immediate(extname)?;
                let ghost queried = self.state();
                self.variant.insert_ext_opcode(sarr, reply.major_opcode);
                proof {
                    assert((VariantState { extensions: start.extensions, ..self.state() })
                        == queried);
                }
                Ok(reply.major_opcode)
            },
        }
    }

    /// Asks the server for the extension `extname` and waits for the
    /// answer. An extension that the server does not have, or whose name
    /// does not fit a request, is an error.
    pub fn query_extension_immediate(&mut self, extname: &str) -> (answer: Result<
        QueryExtensionReply,
        BreadError,
    >)
        requires
            old(self).wf(),
        ensures
            final(self).wf(),
            connection_after(old(self).connected(), final(self).connected(), answer is Ok),
            old(self).received().is_prefix_of(final(self).received()),
            final(self).state().extensions == old(self).state().extensions,
            settings_kept(
                old(self).state(),
                final(self).state(),
                extname.spec_bytes().len() <= 0xffff,
            ),
            query_sent_or_not(old(self).sent(), final(self).sent(), extname.spec_bytes()),
            query_outcome(
                old(self).state(),
                old(self).connected(),
                extname.spec_bytes(),
                final(self).sent().len() > old(self).sent().len(),
                newly_received(old(self).received(), final(self).received()),
                final(self).state(),
                match answer {
                    Ok(reply) => Ok(reply.major_opcode),
                    Err(err) => Err(err),
                },
            ),
            answer matches Ok(reply) ==> answered_reply(
                old(self).state(),
                extname.spec_bytes(),
                final(self).sent().len() > old(self).sent().len(),
                newly_received(old(self).received(), final(self).received()),
            ) == Some(reply),
    {
        proof {
            assert(newly_received(self.received(), self.received()) =~= Seq::<Packet>::empty());
        }
        let req = match QueryExtensionRequest::new(extname) {
            Some(req) => req,
            None => {
                return Err(BreadError::ExtensionNotPresent(extname.to_owned()));
            },
        };
        let (sequence, frame) = self.encode_request(&req, None, false);
        let mut fds: Vec<Fd> = Vec::new();
        let sent = match &mut self.connection {
            None => {
                return Err(BreadError::ClosedConnection);
            },
            Some(conn) => {
                assert(frame@ == query_packet(extname.spec_bytes()).bytes);
                assert(fds@ == query_packet(extname.spec_bytes()).fds);
                conn.send_packet(frame.as_slice(), &mut fds)
            },
        };
        if let Err(e) = sent {
            self.connection = None;
            return Err(e);
        }
        proof {
            self.traffic@ = Traffic {
                sent: self.traffic@.sent.push(query_packet(extname.spec_bytes())),
                ..self.traffic@
            };
        }
        let cookie: RequestCookie<QueryExtensionRequest> = RequestCookie::from_sequence(sequence);
        let (bytes, _) = self.reply_for(&cookie)?;
        let reply = QueryExtensionReply::from_bytes(bytes.as_slice());
        if reply.present {
            Ok(reply)
        } else {
            Err(BreadError::ExtensionNotPresent(extname.to_owned()))
        }
    }

    /// Sends `req`: finds the opcode of its extension, asking the server
    /// where it is not known yet, frames and numbers the request, and writes
    /// it out with its file descriptors. A request too long for this machine
    /// to frame is refused before anything happens.
    pub fn send_request_internal<R: Request>(&mut self, req: R, discard_reply: bool) -> (cookie:
        Result<RequestCookie<R>, BreadError>)
        requires
            old(self).wf(),
        ensures
            final(self).wf(),
            connection_after(old(self).connected(), final(self).connected(), cookie is Ok),
            request_sent(
                old(self).state(),
                old(self).traffic(),
                old(self).connected(),
                info_of(req),
                discard_reply,
                final(self).state(),
                final(self).traffic(),
                failure_of(cookie),
            ),
            cookie matches Ok(c) ==> c.spec_sequence() == (if known_opcode(
                req.spec_extension(),
                old(self).state(),
            ) is Some {
                old(self).state().request_number
            } else {
                VariantState::following(old(self).state().request_number)
            }),
    {
        let ghost info = info_of(req);
        let mut req = req;
        if req.size() > isize::MAX as usize - 3 {
            return Err(BreadError::Io(IoErrorKind::Other));
        }
        let ext_opcode = match req.extension() {
            None => None,
            Some(ext) => Some(self.get_ext_opcode(ext)?),
        };
        let (sequence, bytes) = self.encode_request(&req, ext_opcode, discard_reply);
        self.variant.advance_request_number();
        let sent = match &mut self.connection {
            None => {
                return Err(BreadError::ClosedConnection);
            },
            Some(conn) => match req.file_descriptors() {
                Some(fds) => {
                    assert(fds@ == info.fds);
                    conn.send_packet(bytes.as_slice(), fds)
                },
                None => {
                    let mut none: Vec<Fd> = Vec::new();
                    assert(none@ =~= info.fds);
                    conn.send_packet(bytes.as_slice(), &mut none)
                },
            },
        };
        if let Err(e) = sent {
            self.connection = None;
            return Err(e);
        }
        proof {
            self.traffic@ = Traffic {
                sent: self.traffic@.sent.push(Packet { bytes: bytes@, fds: info.fds }),
                ..self.traffic@
            };
        }
        Ok(RequestCookie::from_sequence(sequence))
    }

    /// Frames `req`, gives it the next sequence number, and records it where
    /// an answer is expected.
    pub fn encode_request<R: Request>(
        &mut self,
        req: &R,
        ext_opcode: Option<u8>,
        discard_reply: bool,
    ) -> (out: (u16, PacketBuf))
        requires
            old(self).wf(),
            req.spec_size() + 3 <= isize::MAX,
        ensures
            final(self).wf(),
            final(self).connected() == old(self).connected(),
            final(self).traffic() == old(self).traffic(),
            out.0 == old(self).state().request_number,
            out.1@ == frame_of(info_of(*req), ext_opcode),
            final(self).state() == old(self).state().encoded_as(
                info_of(*req),
                ext_opcode,
                discard_reply,
            ),
    {
        let mut bytes = PacketBuf::zeroed(req.size());
        let len = req.as_bytes(bytes.as_mut_slice());
        assert(crate::request::head(bytes@, len as nat) =~= req.spec_body());
        let frame = encode_frame(bytes, len, req.opcode(), ext_opcode);
        let checked = self.variant.checked();
        let reply_size = req.reply_size();
        let workaround = if detect_glx_workaround(req.extension(), req.opcode(), frame.as_slice()) {
            RequestWorkaround::GlxFbconfigBug
        } else {
            RequestWorkaround::NoWorkaround
        };
        let flags = PendingRequestFlags {
            expects_fds: req.reply_expects_fds(),
            discard_reply,
            checked: reply_size == 0 && checked,
            workaround,
        };
        let sequence = self.variant.next_request_number();
        if reply_size != 0 || checked {
            self.expect_reply(sequence, flags);
        }
        (sequence, frame)
    }
}

} // verus!
