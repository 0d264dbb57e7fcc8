use breadx::error::BreadError;
use breadx::event::Event;
use breadx::packet::PacketBuf;
use breadx::request::{PendingRequest, PendingRequestFlags, RequestWorkaround};
use breadx::variant::sync::SyncVariant;
use breadx::variant::unsync::UnsyncVariant;
use breadx::variant::DisplayVariant;

fn event(tag: u8) -> Event {
    let mut bytes = [0u8; 32];
    bytes[0] = 2;
    bytes[1] = tag;
    Event::from_bytes(PacketBuf::from_bytes(&bytes))
}

fn pending(sequence: u16, checked: bool) -> PendingRequest {
    PendingRequest {
        request: sequence,
        flags: PendingRequestFlags {
            discard_reply: false,
            checked,
            expects_fds: false,
            workaround: RequestWorkaround::NoWorkaround,
        },
    }
}

fn fresh_variant_is_empty<V: DisplayVariant>() {
    let mut v = V::new();
    assert!(v.checked());
    assert!(v.pop_event().is_none());
    assert!(!v.pending_request_contains(0));
    assert_eq!(v.get_pending_request(0), None);
    assert_eq!(v.retrieve_pending_error(0), None);
    assert_eq!(v.retrieve_pending_reply(0), None);
    assert!(!v.is_queue_registered(0));
    assert_eq!(v.get_ext_opcode(&[0u8; 24]), None);
    assert_eq!(v.wm_protocols_atom(), None);
    assert_eq!(v.next_request_number(), 0);
    assert_eq!(v.generate_xid(), Ok(0));
}

fn main_queue_is_fifo<V: DisplayVariant>() {
    let mut v = V::new();
    v.queue_event(event(1));
    v.queue_event(event(2));
    assert_eq!(v.pop_event().unwrap().as_byte_slice()[1], 1);
    v.queue_event(event(3));
    assert_eq!(v.pop_event().unwrap().as_byte_slice()[1], 2);
    assert_eq!(v.pop_event().unwrap().as_byte_slice()[1], 3);
    assert!(v.pop_event().is_none());
}

fn special_queues_are_fifo_and_separate<V: DisplayVariant>() {
    let mut v = V::new();
    assert_eq!(v.try_queue_special_event(event(9), 7).unwrap_err().as_byte_slice()[1], 9);
    assert_eq!(v.get_special_event(7), Err(BreadError::NoSpecialQueue(7)));
    v.register_special_event(7);
    v.register_special_event(8);
    assert!(v.is_queue_registered(7));
    assert!(!v.is_queue_registered(9));
    assert_eq!(v.try_queue_special_event(event(1), 7).map_err(|_| ()), Ok(7));
    assert_eq!(v.try_queue_special_event(event(2), 8).map_err(|_| ()), Ok(8));
    assert_eq!(v.try_queue_special_event(event(3), 7).map_err(|_| ()), Ok(7));
    assert!(v.pop_event().is_none());
    assert_eq!(v.get_special_event(7).unwrap().unwrap().as_byte_slice()[1], 1);
    assert_eq!(v.get_special_event(7).unwrap().unwrap().as_byte_slice()[1], 3);
    assert_eq!(v.get_special_event(7), Ok(None));
    assert_eq!(v.get_special_event(8).unwrap().unwrap().as_byte_slice()[1], 2);
    v.register_special_event(8);
    assert_eq!(v.get_special_event(8), Ok(None));
    v.unregister_special_event(7);
    assert!(!v.is_queue_registered(7));
    assert!(v.is_queue_registered(8));
    assert_eq!(v.get_special_event(7), Err(BreadError::NoSpecialQueue(7)));
    assert!(v.try_queue_special_event(event(4), 7).is_err());
}

fn pending_tables_keep_what_they_get<V: DisplayVariant>() {
    let mut v = V::new();
    v.insert_pending_request(5, pending(5, false));
    v.insert_pending_request(6, pending(6, true));
    assert!(v.pending_request_contains(5));
    assert!(!v.pending_request_contains(7));
    assert_eq!(v.get_pending_request(6), Some(pending(6, true)));
    assert_eq!(v.get_pending_request(6), Some(pending(6, true)));
    v.insert_pending_request(5, pending(5, true));
    assert_eq!(v.remove_pending_request(5), Some(pending(5, true)));
    assert_eq!(v.remove_pending_request(5), None);
    assert!(v.pending_request_contains(6));

    v.insert_pending_error(5, BreadError::NoXID);
    v.insert_pending_error(6, BreadError::ClosedConnection);
    assert_eq!(v.retrieve_pending_error(6), Some(BreadError::ClosedConnection));
    assert_eq!(v.retrieve_pending_error(6), None);
    assert_eq!(v.retrieve_pending_error(5), Some(BreadError::NoXID));

    v.insert_pending_reply(5, vec![1, 2, 3], vec![10]);
    v.insert_pending_reply(6, vec![4], vec![]);
    assert_eq!(v.retrieve_pending_reply(7), None);
    assert_eq!(v.retrieve_pending_reply(5), Some((vec![1, 2, 3], vec![10])));
    assert_eq!(v.retrieve_pending_reply(5), None);
    assert_eq!(v.retrieve_pending_reply(6), Some((vec![4], vec![])));
}

fn leaving_checked_mode_purges_checked_requests<V: DisplayVariant>() {
    let mut v = V::new();
    v.insert_pending_request(1, pending(1, true));
    v.insert_pending_request(2, pending(2, false));
    v.insert_pending_request(3, pending(3, true));
    v.set_checked(true);
    assert!(v.pending_request_contains(1));
    v.set_checked(false);
    assert!(!v.checked());
    assert!(!v.pending_request_contains(1));
    assert_eq!(v.get_pending_request(2), Some(pending(2, false)));
    assert!(!v.pending_request_contains(3));
    v.set_checked(true);
    assert!(v.checked());
}

fn request_numbers_count_up_and_wrap<V: DisplayVariant>() {
    let mut v = V::new();
    for expected in 0u32..=0xffff {
        v.advance_request_number();
        assert_eq!(v.next_request_number() as u32, expected);
    }
    assert_eq!(v.next_request_number(), 0);
    assert_eq!(v.next_request_number(), 1);
}

fn extension_cache_is_keyed_by_all_24_bytes<V: DisplayVariant>() {
    let mut v = V::new();
    let mut a = [0u8; 24];
    a[0] = b'A';
    let mut b = a;
    b[23] = 1;
    v.insert_ext_opcode(a, 130);
    assert_eq!(v.get_ext_opcode(&a), Some(130));
    assert_eq!(v.get_ext_opcode(&b), None);
    v.insert_ext_opcode(b, 131);
    v.insert_ext_opcode(a, 132);
    assert_eq!(v.get_ext_opcode(&a), Some(132));
    assert_eq!(v.get_ext_opcode(&b), Some(131));
}

fn xids_come_from_the_granted_range<V: DisplayVariant>() {
    let mut v = V::new();
    v.set_xid_base(0x0200_0000, 0x0000_0300);
    assert_eq!(v.generate_xid(), Ok(0x0200_0100));
    assert_eq!(v.generate_xid(), Ok(0x0200_0200));
    assert_eq!(v.generate_xid(), Ok(0x0200_0300));
    assert_eq!(v.generate_xid(), Err(BreadError::NoXID));
    assert_eq!(v.generate_xid(), Err(BreadError::NoXID));
    v.set_xid_base(0x0400_0000, 0x1);
    assert_eq!(v.generate_xid(), Ok(0x0400_0001));
}

fn wm_protocols_atom_is_remembered<V: DisplayVariant>() {
    let mut v = V::new();
    v.set_wm_protocols_atom(77);
    assert_eq!(v.wm_protocols_atom(), Some(77));
    v.set_wm_protocols_atom(0);
    assert_eq!(v.wm_protocols_atom(), None);
}

#[test]
fn unsync_fresh_variant_is_empty() {
    fresh_variant_is_empty::<UnsyncVariant>();
}

#[test]
fn sync_fresh_variant_is_empty() {
    fresh_variant_is_empty::<SyncVariant>();
}

#[test]
fn unsync_main_queue_is_fifo() {
    main_queue_is_fifo::<UnsyncVariant>();
}

#[test]
fn sync_main_queue_is_fifo() {
    main_queue_is_fifo::<SyncVariant>();
}

#[test]
fn unsync_special_queues_are_fifo_and_separate() {
    special_queues_are_fifo_and_separate::<UnsyncVariant>();
}

#[test]
fn sync_special_queues_are_fifo_and_separate() {
    special_queues_are_fifo_and_separate::<SyncVariant>();
}

#[test]
fn unsync_pending_tables_keep_what_they_get() {
    pending_tables_keep_what_they_get::<UnsyncVariant>();
}

#[test]
fn sync_pending_tables_keep_what_they_get() {
    pending_tables_keep_what_they_get::<SyncVariant>();
}

#[test]
fn unsync_leaving_checked_mode_purges_checked_requests() {
    leaving_checked_mode_purges_checked_requests::<UnsyncVariant>();
}

#[test]
fn sync_leaving_checked_mode_purges_checked_requests() {
    leaving_checked_mode_purges_checked_requests::<SyncVariant>();
}

#[test]
fn unsync_request_numbers_count_up_and_wrap() {
    request_numbers_count_up_and_wrap::<UnsyncVariant>();
}

#[test]
fn sync_request_numbers_count_up_and_wrap() {
    request_numbers_count_up_and_wrap::<SyncVariant>();
}

#[test]
fn unsync_extension_cache_is_keyed_by_all_24_bytes() {
    extension_cache_is_keyed_by_all_24_bytes::<UnsyncVariant>();
}

#[test]
fn sync_extension_cache_is_keyed_by_all_24_bytes() {
    extension_cache_is_keyed_by_all_24_bytes::<SyncVariant>();
}

#[test]
fn unsync_xids_come_from_the_granted_range() {
    xids_come_from_the_granted_range::<UnsyncVariant>();
}

#[test]
fn sync_xids_come_from_the_granted_range() {
    xids_come_from_the_granted_range::<SyncVariant>();
}

#[test]
fn unsync_wm_protocols_atom_is_remembered() {
    wm_protocols_atom_is_remembered::<UnsyncVariant>();
}

#[test]
fn sync_wm_protocols_atom_is_remembered() {
    wm_protocols_atom_is_remembered::<SyncVariant>();
}
