use breadx::display::functions::{Cursor, Fence, Pixmap, Rectangle, Region};
use breadx::display::{Connection, Display};
use breadx::error::{BreadError, IoErrorKind};
use breadx::request::{Fd, PendingRequestFlags, RawRequest, RequestWorkaround};
use breadx::variant::sync::SyncVariant;
use breadx::variant::unsync::UnsyncVariant;
use breadx::variant::DisplayVariant;
use std::collections::VecDeque;

struct Script {
    incoming: VecDeque<u8>,
    written: Vec<Vec<u8>>,
    fds_seen: Vec<Fd>,
    refuse_writes: bool,
}

impl Script {
    fn new(incoming: &[u8]) -> Script {
        Script {
            incoming: incoming.iter().copied().collect(),
            written: Vec::new(),
            fds_seen: Vec::new(),
            refuse_writes: false,
        }
    }
}

impl Connection for Script {
    fn send_packet(&mut self, bytes: &[u8], fds: &mut Vec<Fd>) -> Result<(), BreadError> {
        if self.refuse_writes {
            return Err(BreadError::Io(IoErrorKind::WriteZero));
        }
        self.written.push(bytes.to_vec());
        self.fds_seen.append(fds);
        Ok(())
    }

    fn read_packet(&mut self, bytes: &mut [u8], _fds: &mut Vec<Fd>) -> Result<(), BreadError> {
        if self.incoming.len() < bytes.len() {
            return Err(BreadError::Io(IoErrorKind::UnexpectedEof));
        }
        for slot in bytes.iter_mut() {
            *slot = self.incoming.pop_front().unwrap();
        }
        Ok(())
    }
}

fn unit(first: u8, sequence: u16) -> Vec<u8> {
    let mut bytes = vec![0u8; 32];
    bytes[0] = first;
    bytes[2] = (sequence & 0xff) as u8;
    bytes[3] = (sequence >> 8) as u8;
    bytes
}

fn raw(opcode: u8, extension: Option<&'static str>, reply_size: usize, body: Vec<u8>) -> RawRequest {
    RawRequest { opcode, extension, reply_size, reply_expects_fds: false, body, fds: Vec::new() }
}

fn query_extension_reply(sequence: u16, present: bool, major: u8) -> Vec<u8> {
    let mut bytes = unit(1, sequence);
    bytes[8] = present as u8;
    bytes[9] = major;
    bytes
}

fn query_extension_frame(name: &str) -> Vec<u8> {
    let mut frame = vec![98u8, 0, 0, 0, name.len() as u8, 0, 0, 0];
    frame.extend_from_slice(name.as_bytes());
    while frame.len() % 4 != 0 {
        frame.push(0);
    }
    frame[2] = (frame.len() / 4) as u8;
    frame
}

#[test]
fn single_round_trip() {
    let reply = unit(1, 0);
    let mut dpy: Display<Script, UnsyncVariant> = Display::from_connection(Script::new(&reply));
    let cookie = dpy.send_request_internal(raw(20, None, 32, Vec::new()), false).unwrap();
    assert_eq!(cookie.sequence(), 0);
    assert!(dpy.variant().pending_request_contains(0));
    let (bytes, fds) = dpy.reply_for(&cookie).unwrap();
    assert_eq!(bytes, reply);
    assert!(fds.is_empty());
    assert!(!dpy.variant().pending_request_contains(0));
    let conn = dpy.into_connection().unwrap();
    assert_eq!(conn.written, vec![vec![20u8, 0, 1, 0]]);
}

#[test]
fn single_round_trip_on_the_shared_variant() {
    let reply = unit(1, 0);
    let mut dpy: Display<Script, SyncVariant> = Display::from_connection(Script::new(&reply));
    let cookie = dpy.send_request_internal(raw(20, None, 32, Vec::new()), false).unwrap();
    assert_eq!(cookie.sequence(), 0);
    let (bytes, _) = dpy.reply_for(&cookie).unwrap();
    assert_eq!(bytes, reply);
    let conn = dpy.into_connection().unwrap();
    assert_eq!(conn.written, vec![vec![20u8, 0, 1, 0]]);
}

#[test]
fn extension_opcode_is_asked_for_once() {
    let incoming = query_extension_reply(0, true, 133);
    let mut dpy: Display<Script, UnsyncVariant> = Display::from_connection(Script::new(&incoming));
    let first = dpy
        .send_request_internal(raw(0, Some("BIG-REQUESTS"), 32, vec![0, 0, 0, 0]), false)
        .unwrap();
    assert_eq!(first.sequence(), 1);
    let second = dpy
        .send_request_internal(raw(0, Some("BIG-REQUESTS"), 32, vec![0, 0, 0, 0]), false)
        .unwrap();
    assert_eq!(second.sequence(), 2);
    assert_eq!(dpy.get_ext_opcode("BIG-REQUESTS"), Ok(133));
    let conn = dpy.into_connection().unwrap();
    assert_eq!(
        conn.written,
        vec![query_extension_frame("BIG-REQUESTS"), vec![133u8, 0, 1, 0], vec![133u8, 0, 1, 0]]
    );
}

#[test]
fn extension_opcode_is_asked_for_once_on_the_shared_variant() {
    let incoming = query_extension_reply(0, true, 133);
    let mut dpy: Display<Script, SyncVariant> = Display::from_connection(Script::new(&incoming));
    assert_eq!(dpy.get_ext_opcode("BIG-REQUESTS"), Ok(133));
    assert_eq!(dpy.get_ext_opcode("BIG-REQUESTS"), Ok(133));
    let conn = dpy.into_connection().unwrap();
    assert_eq!(conn.written, vec![query_extension_frame("BIG-REQUESTS")]);
}

#[test]
fn extension_that_is_not_present_is_an_error_of_its_own() {
    let mut incoming = query_extension_reply(0, false, 0);
    incoming.extend_from_slice(&query_extension_reply(1, false, 9));
    let mut dpy: Display<Script, UnsyncVariant> = Display::from_connection(Script::new(&incoming));
    assert_eq!(
        dpy.get_ext_opcode("NOPE"),
        Err(BreadError::ExtensionNotPresent("NOPE".to_string()))
    );
    assert_eq!(
        dpy.get_ext_opcode("NOPE"),
        Err(BreadError::ExtensionNotPresent("NOPE".to_string()))
    );
    let sent = dpy.send_request_internal(raw(1, Some("NOPE"), 0, vec![0; 4]), false);
    assert_eq!(sent.err(), Some(BreadError::Io(IoErrorKind::UnexpectedEof)));
    let mut dpy: Display<Script, UnsyncVariant> = Display::from_connection(Script::new(&incoming));
    assert!(dpy.get_ext_opcode("NOPE").is_err());
    assert!(dpy.get_ext_opcode("NOPE").is_err());
    let conn = dpy.into_connection().unwrap();
    assert_eq!(conn.written, vec![query_extension_frame("NOPE"), query_extension_frame("NOPE")]);
}

#[test]
fn glx_reply_length_is_doubled_before_the_rest_is_read() {
    let mut incoming = query_extension_reply(0, true, 150);
    let mut reply = unit(1, 1);
    reply[4] = 3;
    reply[8] = 2;
    reply[12] = 3;
    incoming.extend_from_slice(&reply);
    incoming.extend_from_slice(&[7u8; 48]);
    let mut dpy: Display<Script, UnsyncVariant> = Display::from_connection(Script::new(&incoming));
    let cookie = dpy.send_request_internal(raw(21, Some("GLX"), 32, vec![0; 8]), false).unwrap();
    assert_eq!(
        dpy.variant().get_pending_request(1).unwrap().flags.workaround,
        RequestWorkaround::GlxFbconfigBug
    );
    let (bytes, _) = dpy.reply_for(&cookie).unwrap();
    assert_eq!(bytes.len(), 32 + 48);
    assert_eq!(&bytes[4..8], &[12u8, 0, 0, 0]);
    assert_eq!(&bytes[32..], &[7u8; 48]);
    let conn = dpy.into_connection().unwrap();
    assert!(conn.incoming.is_empty());
    assert_eq!(conn.written[1], vec![150u8, 21, 2, 0, 0, 0, 0, 0]);
}

#[test]
fn glx_request_17_needs_the_marker_word() {
    let incoming = query_extension_reply(0, true, 150);
    let mut dpy: Display<Script, SyncVariant> = Display::from_connection(Script::new(&incoming));
    let mut body = vec![0u8; 36];
    body[32..36].copy_from_slice(&[0x04, 0x00, 0x01, 0x00]);
    let with = dpy.send_request_internal(raw(17, Some("GLX"), 32, body), false).unwrap();
    let without = dpy.send_request_internal(raw(17, Some("GLX"), 32, vec![0u8; 36]), false).unwrap();
    let core = dpy.send_request_internal(raw(21, None, 32, vec![0u8; 8]), false).unwrap();
    let flags = |seq: u16| dpy.variant().get_pending_request(seq).unwrap().flags.workaround;
    assert_eq!(flags(with.sequence()), RequestWorkaround::GlxFbconfigBug);
    assert_eq!(flags(without.sequence()), RequestWorkaround::NoWorkaround);
    assert_eq!(flags(core.sequence()), RequestWorkaround::NoWorkaround);
}

#[test]
fn unsolicited_error_is_what_wait_returns() {
    let mut error = unit(0, 999);
    error[1] = 3;
    error[4..8].copy_from_slice(&[0x78, 0x56, 0x34, 0x12]);
    error[8..10].copy_from_slice(&[5, 1]);
    error[10] = 42;
    let mut dpy: Display<Script, UnsyncVariant> = Display::from_connection(Script::new(&error));
    assert_eq!(
        dpy.wait(),
        Err(BreadError::XError {
            code: 3,
            major: 42,
            minor: 0x0105,
            sequence: 999,
            resource: 0x1234_5678,
        })
    );
}

#[test]
fn error_for_a_pending_request_is_kept_for_its_cookie() {
    let mut error = unit(0, 0);
    error[1] = 9;
    let mut dpy: Display<Script, SyncVariant> = Display::from_connection(Script::new(&error));
    let cookie = dpy.send_request_internal(raw(20, None, 32, Vec::new()), false).unwrap();
    assert_eq!(dpy.wait(), Ok(()));
    assert!(!dpy.variant().pending_request_contains(0));
    assert_eq!(
        dpy.reply_for(&cookie),
        Err(BreadError::XError { code: 9, major: 0, minor: 0, sequence: 0, resource: 0 })
    );
}

#[test]
fn generic_event_goes_to_its_special_queue() {
    let mut event = unit(35, 0);
    event[12..16].copy_from_slice(&[0xef, 0xbe, 0xad, 0xde]);
    let mut incoming = event.clone();
    let mut synthetic = event.clone();
    synthetic[0] = 35 | 0x80;
    incoming.extend_from_slice(&synthetic);
    let mut dpy: Display<Script, UnsyncVariant> = Display::from_connection(Script::new(&incoming));
    dpy.register_special_event(0xdead_beef);
    assert_eq!(dpy.wait(), Ok(()));
    assert_eq!(dpy.wait(), Ok(()));
    assert!(dpy.pop_event().is_none());
    assert_eq!(dpy.get_special_event(0xdead_beef).unwrap().unwrap().as_byte_slice(), &event[..]);
    assert_eq!(
        dpy.get_special_event(0xdead_beef).unwrap().unwrap().as_byte_slice(),
        &synthetic[..]
    );
    assert_eq!(dpy.get_special_event(0xdead_beef), Ok(None));
}

#[test]
fn generic_event_goes_to_its_special_queue_on_the_shared_variant() {
    let mut event = unit(35, 0);
    event[12..16].copy_from_slice(&[0xef, 0xbe, 0xad, 0xde]);
    let mut dpy: Display<Script, SyncVariant> = Display::from_connection(Script::new(&event));
    dpy.register_special_event(0xdead_beef);
    assert_eq!(dpy.wait(), Ok(()));
    assert!(dpy.pop_event().is_none());
    assert_eq!(dpy.get_special_event(0xdead_beef).unwrap().unwrap().as_byte_slice(), &event[..]);
    assert_eq!(dpy.get_special_event(0xdead_beef), Ok(None));
}

#[test]
fn generic_event_without_a_queue_goes_to_the_main_queue() {
    let mut event = unit(35, 0);
    event[4] = 1;
    event[12..16].copy_from_slice(&[0xef, 0xbe, 0xad, 0xde]);
    let mut incoming = event.clone();
    incoming.extend_from_slice(&[1, 2, 3, 4]);
    let mut dpy: Display<Script, UnsyncVariant> = Display::from_connection(Script::new(&incoming));
    dpy.register_special_event(0xdead_beee);
    assert_eq!(dpy.wait(), Ok(()));
    let queued = dpy.pop_event().unwrap();
    assert_eq!(queued.as_byte_slice().len(), 36);
    assert_eq!(&queued.as_byte_slice()[32..], &[1u8, 2, 3, 4]);
    assert_eq!(dpy.get_special_event(0xdead_beee), Ok(None));
    assert_eq!(dpy.get_special_event(0xdead_beef), Err(BreadError::NoSpecialQueue(0xdead_beef)));
}

#[test]
fn events_come_out_in_the_order_they_came_in() {
    let mut incoming = Vec::new();
    for k in 0u8..5 {
        let mut event = unit(2 + k, 0);
        event[1] = k;
        incoming.extend_from_slice(&event);
    }
    let mut dpy: Display<Script, SyncVariant> = Display::from_connection(Script::new(&incoming));
    for _ in 0..5 {
        assert_eq!(dpy.wait(), Ok(()));
    }
    for k in 0u8..5 {
        assert_eq!(dpy.pop_event().unwrap().as_byte_slice()[1], k);
    }
    assert!(dpy.pop_event().is_none());
}

#[test]
fn all_zero_unit_means_closed_connection() {
    let mut dpy: Display<Script, UnsyncVariant> = Display::from_connection(Script::new(&[0u8; 32]));
    assert_eq!(dpy.wait(), Err(BreadError::ClosedConnection));
    let mut dpy: Display<Script, SyncVariant> = Display::from_connection(Script::new(&[0u8; 32]));
    assert_eq!(dpy.wait(), Err(BreadError::ClosedConnection));
}

#[test]
fn reply_without_a_request_is_refused() {
    let reply = unit(1, 7);
    let mut dpy: Display<Script, UnsyncVariant> = Display::from_connection(Script::new(&reply));
    assert_eq!(dpy.wait(), Err(BreadError::NoMatchingRequest(7)));
}

#[test]
fn discarded_reply_is_dropped() {
    let mut incoming = unit(1, 0);
    incoming.extend_from_slice(&unit(1, 0));
    let mut dpy: Display<Script, UnsyncVariant> = Display::from_connection(Script::new(&incoming));
    let _ = dpy.send_request_internal(raw(20, None, 32, Vec::new()), true).unwrap();
    assert!(dpy.variant().get_pending_request(0).unwrap().flags.discard_reply);
    assert_eq!(dpy.wait(), Ok(()));
    assert!(!dpy.variant().pending_request_contains(0));
    assert_eq!(dpy.wait(), Err(BreadError::NoMatchingRequest(0)));
}

#[test]
fn short_read_is_an_io_error_and_costs_the_connection() {
    let mut dpy: Display<Script, UnsyncVariant> = Display::from_connection(Script::new(&[1u8; 31]));
    assert_eq!(dpy.wait(), Err(BreadError::Io(IoErrorKind::UnexpectedEof)));
    assert_eq!(dpy.wait(), Err(BreadError::ClosedConnection));
    assert!(dpy.into_connection().is_none());
}

#[test]
fn short_read_inside_a_reply_is_an_io_error() {
    let mut incoming = unit(1, 0);
    incoming[4] = 2;
    incoming.extend_from_slice(&[0u8; 7]);
    let mut dpy: Display<Script, SyncVariant> = Display::from_connection(Script::new(&incoming));
    let cookie = dpy.send_request_internal(raw(20, None, 32, Vec::new()), false).unwrap();
    assert_eq!(dpy.reply_for(&cookie), Err(BreadError::Io(IoErrorKind::UnexpectedEof)));
    assert!(dpy.variant().pending_request_contains(0));
    assert_eq!(dpy.reply_for(&cookie), Err(BreadError::ClosedConnection));
}

#[test]
fn errors_of_the_protocol_leave_the_connection_alone() {
    let mut incoming = unit(1, 7);
    incoming.extend_from_slice(&unit(5, 0));
    let mut dpy: Display<Script, UnsyncVariant> = Display::from_connection(Script::new(&incoming));
    assert_eq!(dpy.wait(), Err(BreadError::NoMatchingRequest(7)));
    assert_eq!(dpy.wait(), Ok(()));
    assert_eq!(dpy.pop_event().unwrap().as_byte_slice()[0], 5);
    assert!(dpy.into_connection().is_some());
}

#[test]
fn display_without_connection_fails_with_closed_connection() {
    let mut dpy: Display<Script, UnsyncVariant> = Display::disconnected();
    assert_eq!(dpy.wait(), Err(BreadError::ClosedConnection));
    let sent = dpy.send_request_internal(raw(20, None, 0, Vec::new()), false);
    assert_eq!(sent.err(), Some(BreadError::ClosedConnection));
    assert!(dpy.variant().pending_request_contains(0));
    assert!(dpy.into_connection().is_none());
}

#[test]
fn refused_write_still_consumes_the_sequence_number() {
    let mut conn = Script::new(&[]);
    conn.refuse_writes = true;
    let mut dpy: Display<Script, SyncVariant> = Display::from_connection(conn);
    let sent = dpy.send_request_internal(raw(20, None, 32, Vec::new()), false);
    assert_eq!(sent.err(), Some(BreadError::Io(IoErrorKind::WriteZero)));
    assert!(dpy.variant().pending_request_contains(0));
    let again = dpy.send_request_internal(raw(20, None, 32, Vec::new()), false);
    assert_eq!(again.err(), Some(BreadError::ClosedConnection));
    assert!(dpy.variant().pending_request_contains(1));
    assert!(dpy.into_connection().is_none());
}

#[test]
fn checked_mode_tracks_requests_without_a_reply() {
    let mut dpy: Display<Script, UnsyncVariant> = Display::from_connection(Script::new(&[]));
    assert!(dpy.checked());
    let void = dpy.send_request_internal(raw(8, None, 0, vec![0; 8]), false).unwrap();
    let asking = dpy.send_request_internal(raw(3, None, 32, vec![0; 8]), false).unwrap();
    assert_eq!(
        dpy.variant().get_pending_request(void.sequence()).unwrap().flags,
        PendingRequestFlags {
            discard_reply: false,
            checked: true,
            expects_fds: false,
            workaround: RequestWorkaround::NoWorkaround,
        }
    );
    assert!(!dpy.variant().get_pending_request(asking.sequence()).unwrap().flags.checked);
    dpy.set_checked(false);
    assert!(!dpy.checked());
    assert!(!dpy.variant().pending_request_contains(void.sequence()));
    assert!(dpy.variant().pending_request_contains(asking.sequence()));
    let unchecked = dpy.send_request_internal(raw(8, None, 0, vec![0; 8]), false).unwrap();
    assert_eq!(unchecked.sequence(), 2);
    assert!(!dpy.variant().pending_request_contains(2));
}

#[test]
fn file_descriptors_go_out_beside_the_request() {
    let mut dpy: Display<Script, UnsyncVariant> = Display::from_connection(Script::new(&[]));
    let mut req = raw(8, None, 0, vec![0; 5]);
    req.fds = vec![3, 4];
    req.reply_expects_fds = true;
    let cookie = dpy.send_request_internal(req, false).unwrap();
    assert!(dpy.variant().get_pending_request(cookie.sequence()).unwrap().flags.expects_fds);
    let conn = dpy.into_connection().unwrap();
    assert_eq!(conn.fds_seen, vec![3, 4]);
    assert_eq!(conn.written, vec![vec![8u8, 0, 2, 0, 0, 0, 0, 0]]);
}

#[test]
fn free_pixmap_goes_out_as_one_core_frame() {
    let mut dpy: Display<Script, UnsyncVariant> = Display::from_connection(Script::new(&[]));
    assert_eq!(Pixmap { xid: 0x0102_0304 }.free(&mut dpy), Ok(()));
    let conn = dpy.into_connection().unwrap();
    assert_eq!(conn.written, vec![vec![54u8, 0, 2, 0, 4, 3, 2, 1]]);
}

#[test]
fn free_cursor_goes_out_as_one_core_frame() {
    let mut dpy: Display<Script, SyncVariant> = Display::from_connection(Script::new(&[]));
    assert_eq!(Cursor { xid: 0xa0b0_c0d0 }.free(&mut dpy), Ok(()));
    let conn = dpy.into_connection().unwrap();
    assert_eq!(conn.written, vec![vec![95u8, 0, 2, 0, 0xd0, 0xc0, 0xb0, 0xa0]]);
}

#[test]
fn fences_go_out_under_the_sync_extension() {
    let incoming = query_extension_reply(0, true, 134);
    let mut dpy: Display<Script, UnsyncVariant> = Display::from_connection(Script::new(&incoming));
    assert_eq!(dpy.trigger_fence(Fence { xid: 5 }), Ok(()));
    assert_eq!(dpy.free_sync_fence(Fence { xid: 5 }), Ok(()));
    let conn = dpy.into_connection().unwrap();
    assert_eq!(
        conn.written,
        vec![
            query_extension_frame("SYNC"),
            vec![134u8, 15, 2, 0, 5, 0, 0, 0],
            vec![134u8, 17, 2, 0, 5, 0, 0, 0],
        ]
    );
}

#[test]
fn regions_are_made_and_destroyed_under_xfixes() {
    let incoming = query_extension_reply(0, true, 138);
    let mut dpy: Display<Script, UnsyncVariant> = Display::from_connection(Script::new(&incoming));
    dpy.set_xid_base(0x0100_0000, 0x0000_00ff);
    let region = dpy
        .create_region(vec![
            Rectangle { x: -1, y: 2, width: 0x0304, height: 5 },
            Rectangle { x: 0x0102, y: -32768, width: 0, height: 0xffff },
        ])
        .unwrap();
    assert_eq!(region, Region { xid: 0x0100_0001 });
    assert_eq!(region.destroy(&mut dpy), Ok(()));
    let conn = dpy.into_connection().unwrap();
    assert_eq!(
        conn.written,
        vec![
            query_extension_frame("XFIXES"),
            vec![
                138u8, 5, 6, 0, 1, 0, 0, 1, 0xff, 0xff, 2, 0, 4, 3, 5, 0, 2, 1, 0, 0x80, 0, 0,
                0xff, 0xff,
            ],
            vec![138u8, 10, 2, 0, 1, 0, 0, 1],
        ]
    );
}

#[test]
fn create_region_without_identifiers_sends_nothing() {
    let mut dpy: Display<Script, SyncVariant> = Display::from_connection(Script::new(&[]));
    dpy.set_xid_base(0x0100_0000, 0x1);
    assert_eq!(dpy.generate_xid(), Ok(0x0100_0001));
    assert_eq!(dpy.generate_xid(), Err(BreadError::NoXID));
    assert_eq!(dpy.create_region(Vec::new()), Err(BreadError::NoXID));
    let conn = dpy.into_connection().unwrap();
    assert!(conn.written.is_empty());
}

#[test]
fn sequence_numbers_wrap_after_65536_requests() {
    let mut dpy: Display<Script, UnsyncVariant> = Display::from_connection(Script::new(&[]));
    dpy.set_checked(false);
    for expected in 0u32..0x1_0000 {
        let cookie = dpy.send_request_internal(raw(8, None, 0, vec![0; 4]), false).unwrap();
        assert_eq!(cookie.sequence() as u32, expected);
    }
    let wrapped = dpy.send_request_internal(raw(8, None, 32, vec![0; 4]), false).unwrap();
    assert_eq!(wrapped.sequence(), 0);
    assert!(dpy.variant().pending_request_contains(0));
    assert!(!dpy.variant().pending_request_contains(1));
}
