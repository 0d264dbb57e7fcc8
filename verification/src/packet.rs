//! The byte buffer that packets are built and received in: short ones stay
//! on the stack, long ones move to the heap.

use vstd::prelude::*;

verus! {

/// A growable byte buffer, held in a `tinyvec::TinyVec` with room for one
/// 32-byte unit inline.
#[verifier::external_body]
pub struct PacketBuf {
    inner: tinyvec::TinyVec<[u8; 32]>,
}

/// The bytes that a buffer holds, first to last.
pub uninterp spec fn packet_bytes(buf: PacketBuf) -> Seq<u8>;

impl View for PacketBuf {
    type V = Seq<u8>;

    open spec fn view(&self) -> Seq<u8> {
        packet_bytes(*self)
    }
}

impl PacketBuf {
    /// `TinyVec::new` followed by `TinyVec::resize` with the value 0: a new
    /// vector is empty, and `resize` fills it up to `n` with the given value.
    /// A vector cannot hold more than `isize::MAX` bytes.
    #[verifier::external_body]
    pub(crate) fn zeroed(n: usize) -> (buf: PacketBuf)
        requires
            n <= isize::MAX,
        ensures
            packet_bytes(buf) == Seq::new(n as nat, |i: int| 0u8),
    {
        let mut inner: tinyvec::TinyVec<[u8; 32]> = tinyvec::TinyVec::new();
        inner.resize(n, 0);
        PacketBuf { inner }
    }

    /// `TinyVec::len`: the number of items.
    #[verifier::external_body]
    pub(crate) fn len(&self) -> (n: usize)
        ensures
            n == packet_bytes(*self).len(),
    {
        self.inner.len()
    }

    /// `TinyVec::as_slice`: the items as a shared slice.
    #[verifier::external_body]
    pub(crate) fn as_slice(&self) -> (bytes: &[u8])
        ensures
            bytes@ == packet_bytes(*self),
    {
        self.inner.as_slice()
    }

    /// `TinyVec::as_mut_slice`: the items as a mutable slice; what is
    /// written through it is what the vector holds afterwards.
    #[verifier::external_body]
    pub(crate) fn as_mut_slice(&mut self) -> (bytes: &mut [u8])
        ensures
            bytes@ == packet_bytes(*old(self)),
            packet_bytes(*final(self)) == final(bytes)@,
    {
        self.inner.as_mut_slice()
    }

    /// `TinyVec::truncate`: drops the items from `new_len` on, and does
    /// nothing to a vector that is no longer than that.
    #[verifier::external_body]
    pub(crate) fn truncate(&mut self, new_len: usize)
        ensures
            packet_bytes(*final(self)) == (if new_len < packet_bytes(*old(self)).len() {
                packet_bytes(*old(self)).subrange(0, new_len as int)
            } else {
                packet_bytes(*old(self))
            }),
    {
        self.inner.truncate(new_len)
    }

    /// `TinyVec::resize` with the value 0: a longer vector is truncated, a
    /// shorter one is filled up with zero bytes. A vector cannot hold more
    /// than `isize::MAX` bytes.
    #[verifier::external_body]
    pub(crate) fn resize_zeroed(&mut self, new_len: usize)
        requires
            new_len <= isize::MAX,
        ensures
            packet_bytes(*final(self)) == Seq::new(
                new_len as nat,
                |i: int|
                    if i < packet_bytes(*old(self)).len() {
                        packet_bytes(*old(self))[i]
                    } else {
                        0u8
                    },
            ),
    {
        self.inner.resize(new_len, 0)
    }

    /// `TinyVec::into_vec`: the items, in their order, as a `Vec`.
    #[verifier::external_body]
    pub(crate) fn into_vec(self) -> (bytes: Vec<u8>)
        ensures
            bytes@ == packet_bytes(self),
    {
        self.inner.into_vec()
    }

    /// A buffer that holds a copy of `bytes`.
    pub fn from_bytes(bytes: &[u8]) -> (buf: PacketBuf)
        requires
            bytes@.len() <= isize::MAX,
        ensures
            buf@ == bytes@,
    {
        let mut buf = PacketBuf::zeroed(bytes.len());
        let mut i: usize = 0;
        while i < bytes.len()
            invariant
                i <= bytes@.len(),
                buf@.len() == bytes@.len(),
                forall|j: int| 0 <= j < i ==> buf@[j] == bytes@[j],
            decreases bytes@.len() - i,
        {
            buf.set(i, bytes[i]);
            i = i + 1;
        }
        assert(buf@ =~= bytes@);
        buf
    }

    /// A copy of the bytes that the buffer holds.
    pub fn to_vec(&self) -> (bytes: Vec<u8>)
        ensures
            bytes@ == self@,
    {
        let held = self.as_slice();
        let mut bytes: Vec<u8> = Vec::new();
        let mut i: usize = 0;
        while i < held.len()
            invariant
                i <= held@.len(),
                held@ == self@,
                bytes@ == held@.subrange(0, i as int),
            decreases held@.len() - i,
        {
            bytes.push(held[i]);
            assert(bytes@ =~= held@.subrange(0, i + 1));
            i = i + 1;
        }
        assert(bytes@ =~= self@);
        bytes
    }

    /// Reads the byte at `index`.
    pub fn get(&self, index: usize) -> (byte: u8)
        requires
            index < self@.len(),
        ensures
            byte == self@[index as int],
    {
        self.as_slice()[index]
    }

    /// Writes `byte` at `index`.
    pub fn set(&mut self, index: usize, byte: u8)
        requires
            index < old(self)@.len(),
        ensures
            final(self)@ == old(self)@.update(index as int, byte),
    {
        let bytes = self.as_mut_slice();
        bytes[index] = byte;
    }
}

} // verus!
