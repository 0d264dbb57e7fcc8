use breadx::display::functions::{
    write_rectangle, write_resource_request, CreateRegionRequest, Pixmap, Rectangle, Region,
};
use breadx::display::query_extension::{QueryExtensionReply, QueryExtensionRequest};
use breadx::error::BreadError;
use breadx::event::Event;
use breadx::packet::PacketBuf;
use breadx::request::{
    detect_glx_workaround, encode_frame, string_as_array_bytes, survives_unchecked,
    PendingRequest, PendingRequestFlags, RawRequest, Request, RequestCookie, RequestWorkaround,
};
use breadx::wire::{additional_bytes, read_u16, read_u32, write_u32};
use breadx::xid::{AsByteSequence, XidType};

fn frame(body: &[u8], size: usize, len: usize, opcode: u8, ext: Option<u8>) -> Vec<u8> {
    let mut buf = vec![0u8; size];
    buf[..body.len()].copy_from_slice(body);
    encode_frame(PacketBuf::from_bytes(&buf), len, opcode, ext).to_vec()
}

#[test]
fn empty_core_request_is_one_header_unit() {
    assert_eq!(frame(&[], 0, 0, 20, None), vec![20u8, 0, 1, 0]);
}

#[test]
fn empty_extension_request_is_one_header_unit() {
    assert_eq!(frame(&[], 0, 0, 20, Some(133)), vec![133u8, 20, 1, 0]);
    assert_eq!(frame(&[9, 9, 9, 9], 4, 0, 20, Some(133)), vec![133u8, 20, 1, 0]);
}

#[test]
fn frame_is_padded_with_zeros_to_a_multiple_of_four() {
    assert_eq!(frame(&[0, 7, 0, 0, 1], 5, 5, 3, None), vec![3u8, 7, 2, 0, 1, 0, 0, 0]);
    assert_eq!(frame(&[0, 7, 0, 0, 1, 2], 6, 6, 3, None), vec![3u8, 7, 2, 0, 1, 2, 0, 0]);
    assert_eq!(frame(&[0, 7, 0, 0, 1, 2, 3], 7, 7, 3, None), vec![3u8, 7, 2, 0, 1, 2, 3, 0]);
    assert_eq!(frame(&[0, 7, 0, 0, 1, 2, 3, 4], 8, 8, 3, None), vec![3u8, 7, 2, 0, 1, 2, 3, 4]);
    assert_eq!(frame(&[5], 1, 1, 3, None), vec![3u8, 0, 1, 0]);
}

#[test]
fn frame_is_cut_to_the_length_the_request_took() {
    assert_eq!(
        frame(&[0, 0, 0, 0, 1, 2, 3, 4, 5, 6, 7, 8], 12, 6, 3, None),
        vec![3u8, 0, 2, 0, 1, 2, 0, 0]
    );
    assert_eq!(frame(&[0, 0, 0, 0, 1, 2], 6, 100, 3, None), vec![3u8, 0, 2, 0, 1, 2, 0, 0]);
}

#[test]
fn frame_length_is_little_endian_in_units_of_four() {
    let long = frame(&[1u8; 1030], 1030, 1030, 9, Some(200));
    assert_eq!(long.len(), 1032);
    assert_eq!(&long[..4], &[200u8, 9, 2, 1]);
    assert_eq!(read_u16(&long, 2) as usize * 4, long.len());
    assert_eq!(long[4], 1);
    assert_eq!(long[1029], 1);
    assert_eq!(&long[1030..], &[0u8, 0]);
    let huge = frame(&[0u8; 0], 0x4_0004, 0x4_0004, 9, None);
    assert_eq!(huge.len(), 0x4_0004);
    assert_eq!(&huge[..4], &[9u8, 0, 1, 0]);
}

#[test]
fn extension_key_is_the_name_padded_or_cut_to_24_bytes() {
    let mut glx = [0u8; 24];
    glx[..3].copy_from_slice(b"GLX");
    assert_eq!(string_as_array_bytes("GLX"), glx);
    assert_eq!(string_as_array_bytes(""), [0u8; 24]);
    assert_eq!(
        &string_as_array_bytes("ABCDEFGHIJKLMNOPQRSTUVWX"),
        b"ABCDEFGHIJKLMNOPQRSTUVWX"
    );
    assert_eq!(
        string_as_array_bytes("ABCDEFGHIJKLMNOPQRSTUVWXYZ"),
        string_as_array_bytes("ABCDEFGHIJKLMNOPQRSTUVWX0123")
    );
}

#[test]
fn glx_workaround_is_detected_by_name_opcode_and_marker() {
    let mut marked = vec![0u8; 36];
    marked[32..].copy_from_slice(&[0x04, 0x00, 0x01, 0x00]);
    assert!(detect_glx_workaround(Some("GLX"), 21, &[]));
    assert!(detect_glx_workaround(Some("GLX"), 17, &marked));
    assert!(!detect_glx_workaround(Some("GLX"), 17, &marked[..35]));
    assert!(!detect_glx_workaround(Some("GLX"), 17, &[0u8; 36]));
    assert!(!detect_glx_workaround(Some("GLX"), 20, &marked));
    assert!(!detect_glx_workaround(Some("GLx"), 21, &marked));
    assert!(!detect_glx_workaround(Some("GLXX"), 21, &marked));
    assert!(!detect_glx_workaround(None, 21, &marked));
}

#[test]
fn wire_integers_are_little_endian() {
    let bytes = [0x01u8, 0x02, 0x03, 0x04, 0xff, 0xfe];
    assert_eq!(read_u16(&bytes, 0), 0x0201);
    assert_eq!(read_u16(&bytes, 4), 0xfeff);
    assert_eq!(read_u32(&bytes, 0), 0x0403_0201);
    assert_eq!(read_u32(&bytes, 2), 0xfeff_0403);
    let mut out = [9u8; 6];
    write_u32(&mut out, 1, 0xa1b2_c3d4);
    assert_eq!(out, [9u8, 0xd4, 0xc3, 0xb2, 0xa1, 9]);
    assert_eq!(read_u32(&out, 1), 0xa1b2_c3d4);
}

#[test]
fn additional_units_are_announced_by_replies_and_generic_events_only() {
    let mut head = [0u8; 8];
    head[4..8].copy_from_slice(&[5, 1, 0, 0]);
    head[0] = 1;
    assert_eq!(additional_bytes(&head), Some(0x0105));
    head[0] = 35;
    assert_eq!(additional_bytes(&head), Some(0x0105));
    head[0] = 35 | 0x80;
    assert_eq!(additional_bytes(&head), Some(0x0105));
    head[0] = 0;
    assert_eq!(additional_bytes(&head), None);
    head[0] = 34;
    assert_eq!(additional_bytes(&head), None);
    head[0] = 1;
    head[4..8].copy_from_slice(&[0, 0, 0, 0]);
    assert_eq!(additional_bytes(&head), Some(0));
}

#[test]
fn packet_buffer_holds_what_it_was_given() {
    let short = PacketBuf::from_bytes(&[1, 2, 3]);
    assert_eq!(short.to_vec(), vec![1u8, 2, 3]);
    assert_eq!(short.get(2), 3);
    let long: Vec<u8> = (0..100u8).collect();
    let mut buf = PacketBuf::from_bytes(&long);
    assert_eq!(buf.get(99), 99);
    buf.set(40, 7);
    let mut expected = long.clone();
    expected[40] = 7;
    assert_eq!(buf.to_vec(), expected);
    assert_eq!(PacketBuf::from_bytes(&[]).to_vec(), Vec::<u8>::new());
}

#[test]
fn event_names_its_special_queue() {
    let mut bytes = [0u8; 32];
    bytes[0] = 35;
    bytes[12..16].copy_from_slice(&[0xef, 0xbe, 0xad, 0xde]);
    let event = Event::from_bytes(PacketBuf::from_bytes(&bytes));
    assert_eq!(event.as_byte_slice(), &bytes[..]);
    assert_eq!(event.special_target(), Some(0xdead_beef));
    bytes[0] = 35 | 0x80;
    assert_eq!(Event::from_bytes(PacketBuf::from_bytes(&bytes)).special_target(), Some(0xdead_beef));
    bytes[0] = 34;
    assert_eq!(Event::from_bytes(PacketBuf::from_bytes(&bytes)).special_target(), None);
    assert_eq!(Event::from_bytes(PacketBuf::from_bytes(&[35u8; 15])).special_target(), None);
}

#[test]
fn server_error_is_parsed_from_its_unit() {
    let mut bytes = [0u8; 32];
    bytes[1] = 8;
    bytes[2..4].copy_from_slice(&[0x34, 0x12]);
    bytes[4..8].copy_from_slice(&[1, 2, 3, 4]);
    bytes[8..10].copy_from_slice(&[0xcd, 0xab]);
    bytes[10] = 77;
    assert_eq!(
        BreadError::from_x_error(&bytes),
        BreadError::XError {
            code: 8,
            major: 77,
            minor: 0xabcd,
            sequence: 0x1234,
            resource: 0x0403_0201,
        }
    );
}

#[test]
fn query_extension_request_carries_the_name() {
    let req = QueryExtensionRequest::new("XFIXES").unwrap();
    assert_eq!(req.opcode(), 98);
    assert_eq!(req.extension(), None);
    assert_eq!(req.reply_size(), 32);
    assert!(!req.reply_expects_fds());
    assert_eq!(req.size(), 14);
    let mut buf = [0xaau8; 16];
    assert_eq!(req.as_bytes(&mut buf), 14);
    assert_eq!(&buf, &[98u8, 0, 0, 0, 6, 0, 0, 0, b'X', b'F', b'I', b'X', b'E', b'S', 0xaa, 0xaa]);
    let long = "x".repeat(0x1_0000);
    assert!(QueryExtensionRequest::new(&long).is_none());
    let longest = "x".repeat(0xffff);
    let req = QueryExtensionRequest::new(&longest).unwrap();
    let mut buf = vec![0u8; 8 + 0xffff];
    assert_eq!(req.as_bytes(&mut buf), 8 + 0xffff);
    assert_eq!(&buf[4..6], &[0xffu8, 0xff]);
}

#[test]
fn query_extension_reply_is_read_from_bytes_8_to_11() {
    let mut bytes = [0u8; 32];
    bytes[8..12].copy_from_slice(&[1, 133, 90, 150]);
    assert_eq!(
        QueryExtensionReply::from_bytes(&bytes),
        QueryExtensionReply { present: true, major_opcode: 133, first_event: 90, first_error: 150 }
    );
    bytes[8] = 0;
    assert!(!QueryExtensionReply::from_bytes(&bytes).present);
    assert_eq!(
        QueryExtensionReply::from_bytes(&bytes[..11]),
        QueryExtensionReply { present: false, major_opcode: 0, first_event: 0, first_error: 0 }
    );
}

#[test]
fn raw_request_writes_its_body() {
    let mut req = RawRequest {
        opcode: 1,
        extension: Some("GLX"),
        reply_size: 8,
        reply_expects_fds: true,
        body: vec![1, 2, 3],
        fds: vec![4],
    };
    assert_eq!((req.opcode(), req.extension(), req.reply_size()), (1, Some("GLX"), 8));
    assert!(req.reply_expects_fds());
    assert_eq!(req.size(), 3);
    let mut buf = [9u8; 5];
    assert_eq!(req.as_bytes(&mut buf), 3);
    assert_eq!(buf, [1u8, 2, 3, 9, 9]);
    assert_eq!(req.file_descriptors(), Some(&mut vec![4]));
}

#[test]
fn resource_requests_and_rectangles_are_written_little_endian() {
    let mut buf = [9u8; 10];
    assert_eq!(write_resource_request(&mut buf, 0x0a0b_0c0d), 8);
    assert_eq!(buf, [0u8, 0, 0, 0, 0x0d, 0x0c, 0x0b, 0x0a, 9, 9]);
    let mut buf = [9u8; 10];
    write_rectangle(&mut buf, 1, &Rectangle { x: -2, y: 0x7fff, width: 1, height: 0x8000 });
    assert_eq!(buf, [9u8, 0xfe, 0xff, 0xff, 0x7f, 1, 0, 0, 0x80, 9]);
    let req = CreateRegionRequest::new(
        Region { xid: 1 },
        vec![Rectangle { x: 1, y: 2, width: 3, height: 4 }],
    )
    .unwrap();
    assert_eq!((req.opcode(), req.extension(), req.reply_size(), req.size()), (5, Some("XFIXES"), 0, 16));
    let mut buf = [9u8; 16];
    assert_eq!(req.as_bytes(&mut buf), 16);
    assert_eq!(buf, [0u8, 0, 0, 0, 1, 0, 0, 0, 1, 0, 2, 0, 3, 0, 4, 0]);
}

#[test]
fn xid_wrappers_wrap_and_count() {
    let pixmap = Pixmap::from_xid(0xf0f0_0001);
    assert_eq!(pixmap.xid(), 0xf0f0_0001);
    assert_eq!(pixmap.count_ones(), 9);
    assert_eq!(Region::from_xid(0).count_ones(), 0);
    assert_eq!(Region::from_xid(u32::MAX).count_ones(), 32);
}

#[test]
fn xid_wrappers_travel_as_four_bytes() {
    let cursor = breadx::display::functions::Cursor { xid: 0x0a0b_0c0d };
    assert_eq!(AsByteSequence::size(&cursor), 4);
    let mut buf = [9u8; 6];
    assert_eq!(AsByteSequence::as_bytes(&cursor, &mut buf), 4);
    assert_eq!(buf, [0x0du8, 0x0c, 0x0b, 0x0a, 9, 9]);
    let read: Option<(Region, usize)> = AsByteSequence::from_bytes(&buf);
    assert_eq!(read, Some((Region { xid: 0x0a0b_0c0d }, 4)));
    let short: Option<(Region, usize)> = AsByteSequence::from_bytes(&buf[..3]);
    assert_eq!(short, None);
}

#[test]
fn cookie_remembers_its_sequence() {
    let cookie: RequestCookie<RawRequest> = RequestCookie::from_sequence(0xbeef);
    assert_eq!(cookie.sequence(), 0xbeef);
}

#[test]
fn default_flags_ask_for_nothing_special() {
    let flags = PendingRequestFlags::default();
    assert_eq!(
        flags,
        PendingRequestFlags {
            discard_reply: false,
            checked: false,
            expects_fds: false,
            workaround: RequestWorkaround::NoWorkaround,
        }
    );
    assert!(survives_unchecked(&PendingRequest { request: 1, flags }));
    assert!(!survives_unchecked(&PendingRequest {
        request: 1,
        flags: PendingRequestFlags { checked: true, ..flags },
    }));
}
