//! Integers as the X11 wire carries them: least significant byte first.

use vstd::prelude::*;

verus! {

/// First byte of an error.
pub const TYPE_ERROR: u8 = 0;

/// First byte of a reply.
pub const TYPE_REPLY: u8 = 1;

/// Event code of a generic event, once the synthetic bit is masked off.
pub const GENERIC_EVENT: u8 = 35;

/// Everything in an event's first byte but the synthetic bit.
pub const GE_MASK: u8 = 0x7f;

/// The 16-bit value stored at `at` and `at + 1`.
pub open spec fn u16_at(bytes: Seq<u8>, at: int) -> u16 {
    (bytes[at] as int + 256 * (bytes[at + 1] as int)) as u16
}

/// The 32-bit value stored at `at` to `at + 3`.
pub open spec fn u32_at(bytes: Seq<u8>, at: int) -> u32 {
    (bytes[at] as int + 256 * (bytes[at + 1] as int) + 65536 * (bytes[at + 2] as int) + 16777216
        * (bytes[at + 3] as int)) as u32
}

/// Byte `k` (0 to 3) of `x` as the wire carries it.
pub open spec fn le_byte(x: u32, k: int) -> u8 {
    if k == 0 {
        (x % 256) as u8
    } else if k == 1 {
        ((x / 256) % 256) as u8
    } else if k == 2 {
        ((x / 65536) % 256) as u8
    } else {
        (x / 16777216) as u8
    }
}

/// `bytes` with `x` stored at `at` to `at + 3`.
pub open spec fn with_u32_at(bytes: Seq<u8>, at: int, x: u32) -> Seq<u8> {
    bytes.update(at, le_byte(x, 0)).update(at + 1, le_byte(x, 1)).update(
        at + 2,
        le_byte(x, 2),
    ).update(at + 3, le_byte(x, 3))
}

/// Whether the message that starts with `first` carries a count of
/// additional units: a reply does, and so does a generic event.
pub open spec fn has_length_field(first: u8) -> bool {
    first == TYPE_REPLY || first & GE_MASK == GENERIC_EVENT
}

/// Reads the 16-bit value at `at`.
pub fn read_u16(bytes: &[u8], at: usize) -> (x: u16)
    requires
        at + 2 <= bytes@.len(),
    ensures
        x == u16_at(bytes@, at as int),
{
    let lo: u16 = bytes[at] as u16;
    let hi: u16 = bytes[at + 1] as u16;
    lo + 256 * hi
}

/// Reads the 32-bit value at `at`.
pub fn read_u32(bytes: &[u8], at: usize) -> (x: u32)
    requires
        at + 4 <= bytes@.len(),
    ensures
        x == u32_at(bytes@, at as int),
{
    let b0: u32 = bytes[at] as u32;
    let b1: u32 = bytes[at + 1] as u32;
    let b2: u32 = bytes[at + 2] as u32;
    let b3: u32 = bytes[at + 3] as u32;
    b0 + 256 * b1 + 65536 * b2 + 16777216 * b3
}

/// Stores `x` at `at` to `at + 3`.
pub fn write_u32(bytes: &mut [u8], at: usize, x: u32)
    requires
        at + 4 <= old(bytes)@.len(),
    ensures
        final(bytes)@ == with_u32_at(old(bytes)@, at as int, x),
{
    bytes[at] = (x % 256) as u8;
    bytes[at + 1] = ((x / 256) % 256) as u8;
    bytes[at + 2] = ((x / 65536) % 256) as u8;
    bytes[at + 3] = (x / 16777216) as u8;
}

/// The wire's bytes of a value that was read are the bytes it was read
/// from.
pub proof fn lemma_bytes_of_read_u32(bytes: Seq<u8>, at: int)
    requires
        0 <= at,
        at + 4 <= bytes.len(),
    ensures
        le_byte(u32_at(bytes, at), 0) == bytes[at],
        le_byte(u32_at(bytes, at), 1) == bytes[at + 1],
        le_byte(u32_at(bytes, at), 2) == bytes[at + 2],
        le_byte(u32_at(bytes, at), 3) == bytes[at + 3],
{
    let b0 = bytes[at] as int;
    let b1 = bytes[at + 1] as int;
    let b2 = bytes[at + 2] as int;
    let b3 = bytes[at + 3] as int;
    let x = b0 + 256 * b1 + 65536 * b2 + 16777216 * b3;
    assert(0 <= x < 0x1_0000_0000);
    assert(u32_at(bytes, at) == x);
    assert(x % 256 == b0);
    assert(x / 256 == b1 + 256 * b2 + 65536 * b3);
    assert((x / 256) % 256 == b1);
    assert(x / 65536 == b2 + 256 * b3);
    assert((x / 65536) % 256 == b2);
    assert(x / 16777216 == b3);
}

/// What was stored is what is read back.
pub proof fn lemma_u32_round_trip(bytes: Seq<u8>, at: int, x: u32)
    requires
        0 <= at,
        at + 4 <= bytes.len(),
    ensures
        with_u32_at(bytes, at, x).len() == bytes.len(),
        u32_at(with_u32_at(bytes, at, x), at) == x,
        forall|i: int|
            0 <= i < bytes.len() && !(at <= i < at + 4) ==> with_u32_at(bytes, at, x)[i]
                == bytes[i],
{
}

/// The count of additional 4-byte units that the first eight bytes of a
/// message announce, where its kind carries such a count.
pub open spec fn spec_additional_bytes(bytes: Seq<u8>) -> Option<usize> {
    if has_length_field(bytes[0]) {
        Some(u32_at(bytes, 4) as usize)
    } else {
        None
    }
}

/// Reads the count of additional units from the head of a message.
pub fn additional_bytes(bytes: &[u8]) -> (units: Option<usize>)
    requires
        bytes@.len() >= 8,
    ensures
        units == spec_additional_bytes(bytes@),
{
    if bytes[0] == TYPE_REPLY || bytes[0] & GE_MASK == GENERIC_EVENT {
        Some(read_u32(bytes, 4) as usize)
    } else {
        None
    }
}

} // verus!
