//! Resource identifiers and the allocators that hand them out from the range
//! the server granted to this client.

use crate::wire::{le_byte, lemma_bytes_of_read_u32, read_u32, u32_at, write_u32};
use vstd::prelude::*;

verus! {

/// An X11 resource identifier.
pub type XID = u32;

/// The lowest set bit of `mask`, or 0 where `mask` is 0.
pub open spec fn lowest_set_bit(mask: u32) -> u32 {
    if mask == 0 {
        0
    } else {
        mask & !((mask - 1) as u32)
    }
}

/// The lowest set bit of a mask that is not empty lies within the mask.
pub proof fn lemma_lowest_set_bit_bounds(mask: u32)
    ensures
        mask != 0 ==> 0 < lowest_set_bit(mask) <= mask,
        mask == 0 ==> lowest_set_bit(mask) == 0,
{
    if mask != 0 {
        let below: u32 = (mask - 1) as u32;
        assert(0 < (mask & !below) <= mask) by (bit_vector)
            requires
                mask != 0,
                below == (mask - 1) as u32,
        ;
    }
}

/// Computes the lowest set bit of `mask`.
pub fn lowest_bit_of(mask: u32) -> (inc: u32)
    ensures
        inc == lowest_set_bit(mask),
        mask != 0 ==> 0 < inc <= mask,
        mask == 0 ==> inc == 0,
{
    if mask == 0 {
        0
    } else {
        proof {
            lemma_lowest_set_bit_bounds(mask);
        }
        let below: u32 = mask - 1;
        mask & !below
    }
}

/// The value-level state of an allocator: what the server granted and the
/// counter that was issued last.
pub struct XidState {
    pub base: u32,
    pub mask: u32,
    pub last: u32,
}

impl XidState {
    /// The state before any identifier was issued.
    pub open spec fn fresh(base: u32, mask: u32) -> XidState {
        XidState { base, mask, last: 0 }
    }

    /// The step between two counters.
    pub open spec fn inc(self) -> u32 {
        lowest_set_bit(self.mask)
    }

    /// Whether another identifier can be issued. An empty mask never runs
    /// out: its only counter is 0.
    pub open spec fn has_next(self) -> bool {
        self.last + self.inc() <= self.mask
    }

    /// The identifier that the next request for one yields, if any.
    pub open spec fn peek(self) -> Option<u32> {
        if self.has_next() {
            Some(((self.last + self.inc()) as u32) | self.base)
        } else {
            None
        }
    }

    /// The state after the next request for an identifier.
    pub open spec fn advance(self) -> XidState {
        if self.has_next() {
            XidState { last: (self.last + self.inc()) as u32, ..self }
        } else {
            self
        }
    }

    /// The state after `n` requests.
    pub open spec fn run(self, n: nat) -> XidState
        decreases n,
    {
        if n == 0 {
            self
        } else {
            self.run((n - 1) as nat).advance()
        }
    }

    /// What the request numbered `n` (from 0) yields.
    pub open spec fn nth(self, n: nat) -> Option<u32> {
        self.run(n).peek()
    }
}

/// A mask whose set bits form one unbroken run, as every server grants it.
pub open spec fn contiguous(mask: u32) -> bool {
    mask != 0 && ((mask + lowest_set_bit(mask)) as u64) & (mask as u64) == 0
}

/// The number of set bits among the lowest `width` bits of `x`.
pub open spec fn ones_below(x: u32, width: nat) -> nat
    decreases width,
{
    if width == 0 {
        0
    } else {
        ones_below(x, (width - 1) as nat) + (if (x >> ((width - 1) as u32)) & 1 == 1 {
            1nat
        } else {
            0nat
        })
    }
}

/// A type that wraps a resource identifier.
pub trait XidType: Sized {
    /// The identifier that the value wraps.
    spec fn spec_xid(&self) -> XID;

    fn xid(&self) -> (id: XID)
        ensures
            id == self.spec_xid(),
    ;

    fn from_xid(xid: XID) -> (wrapped: Self)
        ensures
            wrapped.spec_xid() == xid,
    ;

    /// Counts the set bits of the identifier.
    fn count_ones(&self) -> (n: usize)
        ensures
            n == ones_below(self.spec_xid(), 32),
    {
        let x: u32 = self.xid();
        let mut n: usize = 0;
        let mut i: u32 = 0;
        while i < 32
            invariant
                i <= 32,
                n <= i,
                n == ones_below(x, i as nat),
            decreases 32 - i,
        {
            if (x >> i) & 1 == 1 {
                n = n + 1;
            }
            i = i + 1;
        }
        n
    }
}

/// A value that the wire carries as a run of bytes.
pub trait AsByteSequence: Sized {
    /// The bytes that stand for the value.
    spec fn spec_as_bytes(&self) -> Seq<u8>;

    /// How many bytes the value takes.
    fn size(&self) -> (size: usize)
        ensures
            size == self.spec_as_bytes().len(),
    ;

    /// Writes the value to the head of `bytes` and returns how many bytes
    /// it took.
    fn as_bytes(&self, bytes: &mut [u8]) -> (len: usize)
        requires
            old(bytes)@.len() >= self.spec_as_bytes().len(),
        ensures
            len == self.spec_as_bytes().len(),
            final(bytes)@.len() == old(bytes)@.len(),
            final(bytes)@.subrange(0, len as int) == self.spec_as_bytes(),
            forall|i: int| len <= i < old(bytes)@.len() ==> final(bytes)@[i] == old(bytes)@[i],
    ;

    /// Reads a value from the head of `bytes`, and tells how many bytes it
    /// took; nothing where the bytes do not hold a value.
    fn from_bytes(bytes: &[u8]) -> (read: Option<(Self, usize)>)
        ensures
            read matches Some(r) ==> r.1 <= bytes@.len() && bytes@.subrange(0, r.1 as int)
                == r.0.spec_as_bytes(),
    ;
}

/// The four bytes of an identifier, low byte first.
pub open spec fn xid_bytes(xid: XID) -> Seq<u8> {
    seq![le_byte(xid, 0), le_byte(xid, 1), le_byte(xid, 2), le_byte(xid, 3)]
}

impl<T: XidType> AsByteSequence for T {
    open spec fn spec_as_bytes(&self) -> Seq<u8> {
        xid_bytes(self.spec_xid())
    }

    fn size(&self) -> (size: usize) {
        4
    }

    fn as_bytes(&self, bytes: &mut [u8]) -> (len: usize) {
        write_u32(bytes, 0, self.xid());
        assert(bytes@.subrange(0, 4) =~= xid_bytes(self.spec_xid()));
        4
    }

    /// An identifier is read from any four bytes.
    fn from_bytes(bytes: &[u8]) -> (read: Option<(Self, usize)>)
        ensures
            read is Some == (bytes@.len() >= 4),
            read matches Some(r) ==> r.0.spec_xid() == u32_at(bytes@, 0) && r.1 == 4,
    {
        if bytes.len() >= 4 {
            let xid = read_u32(bytes, 0);
            proof {
                lemma_bytes_of_read_u32(bytes@, 0);
                assert(bytes@.subrange(0, 4) =~= xid_bytes(xid));
            }
            Some((T::from_xid(xid), 4))
        } else {
            None
        }
    }
}

/// The allocator of the single-threaded display.
#[derive(Debug)]
pub struct XidGeneratorUnsync {
    last: u32,
    max: u32,
    inc: u32,
    base: u32,
    mask: u32,
}

impl View for XidGeneratorUnsync {
    type V = XidState;

    closed spec fn view(&self) -> XidState {
        XidState { base: self.base, mask: self.mask, last: self.last }
    }
}

impl XidGeneratorUnsync {
    /// The fields agree with each other: the step is the mask's lowest bit,
    /// and the limit is unset exactly as long as nothing was issued.
    pub closed spec fn wf(&self) -> bool {
        &&& self.inc == lowest_set_bit(self.mask)
        &&& self.last <= self.mask
        &&& (self.max == 0 && self.last == 0) || (self.max == self.mask && self.mask != 0
            && self.last != 0)
    }

    pub fn new(base: XID, mask: XID) -> (g: Self)
        ensures
            g.wf(),
            g@ == XidState::fresh(base, mask),
    {
        Self { last: 0, max: 0, base, inc: lowest_bit_of(mask), mask }
    }

    /// The identifier issued last, or the bare base before the first.
    pub fn eval_in_place(&self) -> (id: XID)
        ensures
            id == self@.last | self@.base,
    {
        self.last | self.base
    }

    /// Issues the next identifier, or reports that the range is used up.
    pub fn next(&mut self) -> (id: Option<XID>)
        requires
            old(self).wf(),
        ensures
            final(self).wf(),
            id == old(self)@.peek(),
            final(self)@ == old(self)@.advance(),
    {
        proof {
            lemma_lowest_set_bit_bounds(self.mask);
        }
        if self.last as u64 + self.inc as u64 > self.max as u64 {
            if self.last == 0 {
                self.max = self.mask;
                self.last = self.inc;
            } else {
                return None;
            }
        } else {
            self.last = self.last + self.inc;
        }
        Some(self.eval_in_place())
    }
}

impl Default for XidGeneratorUnsync {
    fn default() -> (g: Self)
        ensures
            g.wf(),
            g@ == XidState::fresh(0, 0),
    {
        XidGeneratorUnsync::new(0, 0)
    }
}

/// The allocator of the thread-safe display. It issues the same identifiers
/// as [`XidGeneratorUnsync`]; exclusive access is what `&mut` gives.
#[derive(Debug)]
pub struct XidGeneratorSync {
    last: u32,
    max: u32,
    inc: u32,
    base: u32,
    mask: u32,
}

impl View for XidGeneratorSync {
    type V = XidState;

    closed spec fn view(&self) -> XidState {
        XidState { base: self.base, mask: self.mask, last: self.last }
    }
}

impl XidGeneratorSync {
    /// The fields agree with each other, as for [`XidGeneratorUnsync`].
    pub closed spec fn wf(&self) -> bool {
        &&& self.inc == lowest_set_bit(self.mask)
        &&& self.last <= self.mask
        &&& (self.max == 0 && self.last == 0) || (self.max == self.mask && self.mask != 0
            && self.last != 0)
    }

    pub fn new(base: XID, mask: XID) -> (g: Self)
        ensures
            g.wf(),
            g@ == XidState::fresh(base, mask),
    {
        Self { last: 0, max: 0, base, inc: lowest_bit_of(mask), mask }
    }

    /// The identifier issued last, or the bare base before the first.
    pub fn eval_in_place(&self) -> (id: XID)
        ensures
            id == self@.last | self@.base,
    {
        self.last | self.base
    }

    /// Issues the next identifier, or reports that the range is used up.
    pub fn next(&mut self) -> (id: Option<XID>)
        requires
            old(self).wf(),
        ensures
            final(self).wf(),
            id == old(self)@.peek(),
            final(self)@ == old(self)@.advance(),
    {
        proof {
            lemma_lowest_set_bit_bounds(self.mask);
        }
        let last: u32 = self.last;
        let max: u32 = self.max;
        if last as u64 + self.inc as u64 > max as u64 {
            if last == 0 {
                self.max = self.mask;
                self.last = self.inc;
            } else {
                return None;
            }
        } else {
            self.last = last + self.inc;
        }
        Some(self.eval_in_place())
    }
}

impl Default for XidGeneratorSync {
    fn default() -> (g: Self)
        ensures
            g.wf(),
            g@ == XidState::fresh(0, 0),
    {
        XidGeneratorSync::new(0, 0)
    }
}

/// Running from a fresh state keeps the grant, and under an unbroken mask
/// keeps the counter's bits inside the mask.
pub proof fn lemma_run_confined(base: u32, mask: u32, n: nat)
    requires
        contiguous(mask),
    ensures
        XidState::fresh(base, mask).run(n).base == base,
        XidState::fresh(base, mask).run(n).mask == mask,
        XidState::fresh(base, mask).run(n).last & !mask == 0,
    decreases n,
{
    let g = XidState::fresh(base, mask);
    if n == 0 {
        assert(0u32 & !mask == 0) by (bit_vector);
    } else {
        lemma_run_confined(base, mask, (n - 1) as nat);
        let prev = g.run((n - 1) as nat);
        if prev.has_next() {
            let x = prev.last;
            let inc = lowest_set_bit(mask);
            let below: u32 = (mask - 1) as u32;
            let grown: u32 = (x + inc) as u32;
            assert(grown & !mask == 0) by (bit_vector)
                requires
                    mask != 0,
                    below == (mask - 1) as u32,
                    inc == mask & !below,
                    ((mask as u64 + inc as u64) as u64) & (mask as u64) == 0,
                    x & !mask == 0,
                    x as u64 + inc as u64 <= mask as u64,
                    grown as u64 == x as u64 + inc as u64,
            ;
        }
    }
}

/// The counter never goes back, and stands still once the range is used up.
pub proof fn lemma_run_monotone(g: XidState, i: nat, j: nat)
    requires
        i <= j,
    ensures
        g.run(i).last <= g.run(j).last,
        !g.run(i).has_next() ==> g.run(j) == g.run(i),
    decreases j - i,
{
    if i < j {
        lemma_run_monotone(g, i, (j - 1) as nat);
    }
}

/// From a fresh allocator with an unbroken mask that shares no bit with the
/// base, no identifier is issued twice, every identifier lies within the
/// bits of base and mask, and once the range is used up nothing is issued
/// any more.
pub proof fn lemma_issued_ids_distinct(base: u32, mask: u32, i: nat, j: nat)
    requires
        contiguous(mask),
        base & mask == 0,
        i < j,
    ensures
        XidState::fresh(base, mask).nth(i) is None ==> XidState::fresh(base, mask).nth(j) is None,
        XidState::fresh(base, mask).nth(i) is Some && XidState::fresh(base, mask).nth(j) is Some
            ==> XidState::fresh(base, mask).nth(i) != XidState::fresh(base, mask).nth(j),
        XidState::fresh(base, mask).nth(i) matches Some(id) ==> id & !(base | mask) == 0,
{
    let g = XidState::fresh(base, mask);
    lemma_lowest_set_bit_bounds(mask);
    lemma_run_monotone(g, i, j);
    lemma_run_monotone(g, i + 1, j);
    lemma_run_confined(base, mask, i);
    lemma_run_confined(base, mask, j);
    lemma_run_confined(base, mask, i + 1);
    lemma_run_confined(base, mask, j + 1);
    assert(g.run(i + 1) == g.run(i).advance());
    assert(g.run(j + 1) == g.run(j).advance());
    if g.nth(i) is Some {
        let a = g.run(i + 1).last;
        assert(g.nth(i) == Some(a | base));
        assert((a | base) & !(base | mask) == 0) by (bit_vector)
            requires
                a & !mask == 0,
        ;
        if g.nth(j) is Some {
            let b = g.run(j + 1).last;
            assert(a < b);
            assert(g.nth(j) == Some(b | base));
            assert(a | base != b | base) by (bit_vector)
                requires
                    a != b,
                    a & !mask == 0,
                    b & !mask == 0,
                    base & mask == 0,
            ;
        }
    }
}

} // verus!
