//! Requests that free or make a single resource, and the functions that
//! send them.

use crate::display::output::{failure_of, request_sent};
use crate::display::{connection_after, Connection, Display};
use crate::error::{BreadError, IoErrorKind};
use crate::request::{info_of, Fd, Request, RequestInfo};
use crate::variant::{DisplayVariant, VariantState};
use crate::wire::{le_byte, write_u32};
use crate::xid::{XidType, XID};
use vstd::prelude::*;
use vstd::string::StringSliceAdditionalSpecFns;

verus! {

/// A pixmap of the server.
#[derive(Debug, Clone, Copy, PartialEq, Eq, Structural)]
pub struct Pixmap {
    pub xid: XID,
}

/// A cursor of the server.
#[derive(Debug, Clone, Copy, PartialEq, Eq, Structural)]
pub struct Cursor {
    pub xid: XID,
}

/// A region of the XFIXES extension.
#[derive(Debug, Clone, Copy, PartialEq, Eq, Structural)]
pub struct Region {
    pub xid: XID,
}

/// A fence of the SYNC extension.
#[derive(Debug, Clone, Copy, PartialEq, Eq, Structural)]
pub struct Fence {
    pub xid: XID,
}

impl XidType for Pixmap {
    open spec fn spec_xid(&self) -> XID {
        self.xid
    }

    fn xid(&self) -> (id: XID) {
        self.xid
    }

    fn from_xid(xid: XID) -> (wrapped: Self) {
        Pixmap { xid }
    }
}

impl XidType for Cursor {
    open spec fn spec_xid(&self) -> XID {
        self.xid
    }

    fn xid(&self) -> (id: XID) {
        self.xid
    }

    fn from_xid(xid: XID) -> (wrapped: Self) {
        Cursor { xid }
    }
}

impl XidType for Region {
    open spec fn spec_xid(&self) -> XID {
        self.xid
    }

    fn xid(&self) -> (id: XID) {
        self.xid
    }

    fn from_xid(xid: XID) -> (wrapped: Self) {
        Region { xid }
    }
}

impl XidType for Fence {
    open spec fn spec_xid(&self) -> XID {
        self.xid
    }

    fn xid(&self) -> (id: XID) {
        self.xid
    }

    fn from_xid(xid: XID) -> (wrapped: Self) {
        Fence { xid }
    }
}

/// A rectangle, as the core protocol describes it.
#[derive(Debug, Clone, Copy, PartialEq, Eq, Structural)]
pub struct Rectangle {
    pub x: i16,
    pub y: i16,
    pub width: u16,
    pub height: u16,
}

/// The 16 bits that stand for `x` on the wire.
pub open spec fn i16_bits(x: i16) -> u16 {
    if x >= 0 {
        x as u16
    } else {
        (x + 0x1_0000) as u16
    }
}

/// The eight bytes of a rectangle: x, y, width and height, low byte first.
pub open spec fn rectangle_bytes(r: Rectangle) -> Seq<u8> {
    seq![
        (i16_bits(r.x) % 256) as u8,
        (i16_bits(r.x) / 256) as u8,
        (i16_bits(r.y) % 256) as u8,
        (i16_bits(r.y) / 256) as u8,
        (r.width % 256) as u8,
        (r.width / 256) as u8,
        (r.height % 256) as u8,
        (r.height / 256) as u8,
    ]
}

/// The bytes of `count` rectangles from the head of `rectangles`, one after
/// the other.
pub open spec fn rectangles_bytes(rectangles: Seq<Rectangle>, count: nat) -> Seq<u8>
    decreases count,
{
    if count == 0 || count > rectangles.len() {
        Seq::empty()
    } else {
        rectangles_bytes(rectangles, (count - 1) as nat) + rectangle_bytes(
            rectangles[count - 1],
        )
    }
}

/// The body of a request that names one resource and nothing else: a
/// header of four bytes for opcodes and length, then the identifier.
pub open spec fn resource_request_body(xid: XID) -> Seq<u8> {
    seq![0u8, 0u8, 0u8, 0u8, le_byte(xid, 0), le_byte(xid, 1), le_byte(xid, 2), le_byte(xid, 3)]
}

/// Writes the body of a request that names the resource `xid`.
pub fn write_resource_request(bytes: &mut [u8], xid: XID) -> (len: usize)
    requires
        old(bytes)@.len() >= 8,
    ensures
        final(bytes)@.len() == old(bytes)@.len(),
        len == 8,
        final(bytes)@.subrange(0, 8) == resource_request_body(xid),
{
    bytes[0] = 0;
    bytes[1] = 0;
    bytes[2] = 0;
    bytes[3] = 0;
    write_u32(bytes, 4, xid);
    assert(bytes@.subrange(0, 8) =~= resource_request_body(xid));
    8
}

/// Writes the eight bytes of `r` at `at`.
pub fn write_rectangle(bytes: &mut [u8], at: usize, r: &Rectangle)
    requires
        at + 8 <= old(bytes)@.len(),
    ensures
        final(bytes)@.len() == old(bytes)@.len(),
        final(bytes)@.subrange(at as int, at + 8) == rectangle_bytes(*r),
        final(bytes)@.subrange(0, at as int) == old(bytes)@.subrange(0, at as int),
{
    let x: u16 = if r.x >= 0 {
        r.x as u16
    } else {
        (r.x as i32 + 0x1_0000) as u16
    };
    let y: u16 = if r.y >= 0 {
        r.y as u16
    } else {
        (r.y as i32 + 0x1_0000) as u16
    };
    bytes[at] = (x % 256) as u8;
    bytes[at + 1] = (x / 256) as u8;
    bytes[at + 2] = (y % 256) as u8;
    bytes[at + 3] = (y / 256) as u8;
    bytes[at + 4] = (r.width % 256) as u8;
    bytes[at + 5] = (r.width / 256) as u8;
    bytes[at + 6] = (r.height % 256) as u8;
    bytes[at + 7] = (r.height / 256) as u8;
    assert(bytes@.subrange(at as int, at + 8) =~= rectangle_bytes(*r));
    assert(bytes@.subrange(0, at as int) =~= old(bytes)@.subrange(0, at as int));
}

/// The core request that frees a pixmap.
pub struct FreePixmapRequest {
    pub pixmap: Pixmap,
}

impl Request for FreePixmapRequest {
    open spec fn spec_opcode(&self) -> u8 {
        54
    }

    open spec fn spec_extension(&self) -> Option<Seq<u8>> {
        None
    }

    open spec fn spec_reply_size(&self) -> nat {
        0
    }

    open spec fn spec_reply_expects_fds(&self) -> bool {
        false
    }

    open spec fn spec_body(&self) -> Seq<u8> {
        resource_request_body(self.pixmap.xid)
    }

    open spec fn spec_size(&self) -> nat {
        8
    }

    open spec fn spec_fds(&self) -> Seq<Fd> {
        Seq::empty()
    }

    fn opcode(&self) -> (opcode: u8) {
        54
    }

    fn extension(&self) -> (extension: Option<&'static str>) {
        None
    }

    fn reply_size(&self) -> (size: usize) {
        0
    }

    fn reply_expects_fds(&self) -> (expects: bool) {
        false
    }

    fn size(&self) -> (size: usize) {
        8
    }

    fn as_bytes(&self, bytes: &mut [u8]) -> (len: usize) {
        write_resource_request(bytes, self.pixmap.xid)
    }

    fn file_descriptors(&mut self) -> (fds: Option<&mut Vec<Fd>>) {
        None
    }
}

/// The core request that frees a cursor.
pub struct FreeCursorRequest {
    pub cursor: Cursor,
}

impl Request for FreeCursorRequest {
    open spec fn spec_opcode(&self) -> u8 {
        95
    }

    open spec fn spec_extension(&self) -> Option<Seq<u8>> {
        None
    }

    open spec fn spec_reply_size(&self) -> nat {
        0
    }

    open spec fn spec_reply_expects_fds(&self) -> bool {
        false
    }

    open spec fn spec_body(&self) -> Seq<u8> {
        resource_request_body(self.cursor.xid)
    }

    open spec fn spec_size(&self) -> nat {
        8
    }

    open spec fn spec_fds(&self) -> Seq<Fd> {
        Seq::empty()
    }

    fn opcode(&self) -> (opcode: u8) {
        95
    }

    fn extension(&self) -> (extension: Option<&'static str>) {
        None
    }

    fn reply_size(&self) -> (size: usize) {
        0
    }

    fn reply_expects_fds(&self) -> (expects: bool) {
        false
    }

    fn size(&self) -> (size: usize) {
        8
    }

    fn as_bytes(&self, bytes: &mut [u8]) -> (len: usize) {
        write_resource_request(bytes, self.cursor.xid)
    }

    fn file_descriptors(&mut self) -> (fds: Option<&mut Vec<Fd>>) {
        None
    }
}

/// The XFIXES request that destroys a region.
pub struct DestroyRegionRequest {
    pub region: Region,
}

impl Request for DestroyRegionRequest {
    open spec fn spec_opcode(&self) -> u8 {
        10
    }

    open spec fn spec_extension(&self) -> Option<Seq<u8>> {
        Some("XFIXES".spec_bytes())
    }

    open spec fn spec_reply_size(&self) -> nat {
        0
    }

    open spec fn spec_reply_expects_fds(&self) -> bool {
        false
    }

    open spec fn spec_body(&self) -> Seq<u8> {
        resource_request_body(self.region.xid)
    }

    open spec fn spec_size(&self) -> nat {
        8
    }

    open spec fn spec_fds(&self) -> Seq<Fd> {
        Seq::empty()
    }

    fn opcode(&self) -> (opcode: u8) {
        10
    }

    fn extension(&self) -> (extension: Option<&'static str>) {
        Some("XFIXES")
    }

    fn reply_size(&self) -> (size: usize) {
        0
    }

    fn reply_expects_fds(&self) -> (expects: bool) {
        false
    }

    fn size(&self) -> (size: usize) {
        8
    }

    fn as_bytes(&self, bytes: &mut [u8]) -> (len: usize) {
        write_resource_request(bytes, self.region.xid)
    }

    fn file_descriptors(&mut self) -> (fds: Option<&mut Vec<Fd>>) {
        None
    }
}

/// The SYNC request that triggers a fence.
pub struct TriggerFenceRequest {
    pub fence: Fence,
}

impl Request for TriggerFenceRequest {
    open spec fn spec_opcode(&self) -> u8 {
        15
    }

    open spec fn spec_extension(&self) -> Option<Seq<u8>> {
        Some("SYNC".spec_bytes())
    }

    open spec fn spec_reply_size(&self) -> nat {
        0
    }

    open spec fn spec_reply_expects_fds(&self) -> bool {
        false
    }

    open spec fn spec_body(&self) -> Seq<u8> {
        resource_request_body(self.fence.xid)
    }

    open spec fn spec_size(&self) -> nat {
        8
    }

    open spec fn spec_fds(&self) -> Seq<Fd> {
        Seq::empty()
    }

    fn opcode(&self) -> (opcode: u8) {
        15
    }

    fn extension(&self) -> (extension: Option<&'static str>) {
        Some("SYNC")
    }

    fn reply_size(&self) -> (size: usize) {
        0
    }

    fn reply_expects_fds(&self) -> (expects: bool) {
        false
    }

    fn size(&self) -> (size: usize) {
        8
    }

    fn as_bytes(&self, bytes: &mut [u8]) -> (len: usize) {
        write_resource_request(bytes, self.fence.xid)
    }

    fn file_descriptors(&mut self) -> (fds: Option<&mut Vec<Fd>>) {
        None
    }
}

/// The SYNC request that destroys a fence.
pub struct DestroyFenceRequest {
    pub fence: Fence,
}

impl Request for DestroyFenceRequest {
    open spec fn spec_opcode(&self) -> u8 {
        17
    }

    open spec fn spec_extension(&self) -> Option<Seq<u8>> {
        Some("SYNC".spec_bytes())
    }

    open spec fn spec_reply_size(&self) -> nat {
        0
    }

    open spec fn spec_reply_expects_fds(&self) -> bool {
        false
    }

    open spec fn spec_body(&self) -> Seq<u8> {
        resource_request_body(self.fence.xid)
    }

    open spec fn spec_size(&self) -> nat {
        8
    }

    open spec fn spec_fds(&self) -> Seq<Fd> {
        Seq::empty()
    }

    fn opcode(&self) -> (opcode: u8) {
        17
    }

    fn extension(&self) -> (extension: Option<&'static str>) {
        Some("SYNC")
    }

    fn reply_size(&self) -> (size: usize) {
        0
    }

    fn reply_expects_fds(&self) -> (expects: bool) {
        false
    }

    fn size(&self) -> (size: usize) {
        8
    }

    fn as_bytes(&self, bytes: &mut [u8]) -> (len: usize) {
        write_resource_request(bytes, self.fence.xid)
    }

    fn file_descriptors(&mut self) -> (fds: Option<&mut Vec<Fd>>) {
        None
    }
}

/// The most rectangles that a request can be framed with on this machine.
pub open spec fn max_rectangles() -> nat {
    ((isize::MAX - 11) / 8) as nat
}

/// The XFIXES request that makes a region from rectangles.
pub struct CreateRegionRequest {
    region: Region,
    rectangles: Vec<Rectangle>,
}

impl CreateRegionRequest {
    #[verifier::type_invariant]
    spec fn rectangles_fit(self) -> bool {
        self.rectangles@.len() <= max_rectangles()
    }

    pub closed spec fn spec_region(&self) -> Region {
        self.region
    }

    pub closed spec fn spec_rectangles(&self) -> Seq<Rectangle> {
        self.rectangles@
    }

    /// The request that makes `region` from `rectangles`, unless they are
    /// more than a request can be framed with.
    pub fn new(region: Region, rectangles: Vec<Rectangle>) -> (req: Option<Self>)
        ensures
            req is Some == (rectangles@.len() <= max_rectangles()),
            req matches Some(r) ==> r.spec_region() == region && r.spec_rectangles()
                == rectangles@,
    {
        if rectangles.len() > (isize::MAX as usize - 11) / 8 {
            None
        } else {
            Some(CreateRegionRequest { region, rectangles })
        }
    }
}

/// The body of the request that makes the region `region` from
/// `rectangles`.
pub open spec fn create_region_body(region: Region, rectangles: Seq<Rectangle>) -> Seq<u8> {
    resource_request_body(region.xid) + rectangles_bytes(rectangles, rectangles.len())
}

/// What the request that makes the region `region` from `rectangles` says
/// of itself.
pub open spec fn create_region_info(region: Region, rectangles: Seq<Rectangle>) -> RequestInfo {
    RequestInfo {
        opcode: 5,
        extension: Some("XFIXES".spec_bytes()),
        reply_size: 0,
        reply_expects_fds: false,
        body: create_region_body(region, rectangles),
        size: 8 + 8 * rectangles.len(),
        fds: Seq::empty(),
    }
}

/// The bytes of `count` rectangles take eight bytes each.
pub proof fn lemma_rectangles_bytes_len(rectangles: Seq<Rectangle>, count: nat)
    requires
        count <= rectangles.len(),
    ensures
        rectangles_bytes(rectangles, count).len() == 8 * count,
    decreases count,
{
    if count > 0 {
        lemma_rectangles_bytes_len(rectangles, (count - 1) as nat);
    }
}

impl Request for CreateRegionRequest {
    open spec fn spec_opcode(&self) -> u8 {
        5
    }

    open spec fn spec_extension(&self) -> Option<Seq<u8>> {
        Some("XFIXES".spec_bytes())
    }

    open spec fn spec_reply_size(&self) -> nat {
        0
    }

    open spec fn spec_reply_expects_fds(&self) -> bool {
        false
    }

    open spec fn spec_body(&self) -> Seq<u8> {
        create_region_body(self.spec_region(), self.spec_rectangles())
    }

    open spec fn spec_size(&self) -> nat {
        8 + 8 * self.spec_rectangles().len()
    }

    open spec fn spec_fds(&self) -> Seq<Fd> {
        Seq::empty()
    }

    fn opcode(&self) -> (opcode: u8) {
        5
    }

    fn extension(&self) -> (extension: Option<&'static str>) {
        Some("XFIXES")
    }

    fn reply_size(&self) -> (size: usize) {
        0
    }

    fn reply_expects_fds(&self) -> (expects: bool) {
        false
    }

    fn size(&self) -> (size: usize) {
        proof {
            use_type_invariant(self);
            lemma_rectangles_bytes_len(self.rectangles@, self.rectangles@.len());
        }
        8 + 8 * self.rectangles.len()
    }

    fn as_bytes(&self, bytes: &mut [u8]) -> (len: usize) {
        proof {
            use_type_invariant(self);
            lemma_rectangles_bytes_len(self.rectangles@, self.rectangles@.len());
        }
        let _ = write_resource_request(bytes, self.region.xid);
        let n: usize = self.rectangles.len();
        let mut i: usize = 0;
        while i < n
            invariant
                i <= n,
                n == self.rectangles@.len(),
                n <= max_rectangles(),
                bytes@.len() == old(bytes)@.len(),
                bytes@.len() >= 8 + 8 * n,
                bytes@.subrange(0, 8 + 8 * i) == resource_request_body(self.region.xid)
                    + rectangles_bytes(self.rectangles@, i as nat),
            decreases n - i,
        {
            let ghost before = bytes@;
            proof {
                lemma_rectangles_bytes_len(self.rectangles@, i as nat);
            }
            write_rectangle(bytes, 8 + 8 * i, &self.rectangles[i]);
            assert(bytes@.subrange(0, 8 + 8 * (i + 1)) =~= before.subrange(0, 8 + 8 * i)
                + rectangle_bytes(self.rectangles@[i as int])) by {
                assert(bytes@.subrange(0, 8 + 8 * (i + 1)) =~= bytes@.subrange(0, 8 + 8 * i)
                    + bytes@.subrange(8 + 8 * i, 8 + 8 * i + 8));
            }
            assert(rectangles_bytes(self.rectangles@, (i + 1) as nat) == rectangles_bytes(
                self.rectangles@,
                i as nat,
            ) + rectangle_bytes(self.rectangles@[i as int]));
            assert(bytes@.subrange(0, 8 + 8 * (i + 1)) =~= resource_request_body(self.region.xid)
                + rectangles_bytes(self.rectangles@, (i + 1) as nat));
            i = i + 1;
        }
        8 + 8 * n
    }

    fn file_descriptors(&mut self) -> (fds: Option<&mut Vec<Fd>>) {
        None
    }
}

impl<Conn: Connection, Var: DisplayVariant> Display<Conn, Var> {
    /// Sends a request that has no reply, and is done once it is sent.
    pub fn send_void<R: Request>(&mut self, req: R) -> (done: Result<(), BreadError>)
        requires
            old(self).wf(),
        ensures
            final(self).wf(),
            connection_after(old(self).connected(), final(self).connected(), done is Ok),
            request_sent(
                old(self).state(),
                old(self).traffic(),
                old(self).connected(),
                info_of(req),
                false,
                final(self).state(),
                final(self).traffic(),
                failure_of(done),
            ),
    {
        match self.send_request_internal(req, false) {
            Ok(_) => Ok(()),
            Err(e) => Err(e),
        }
    }

    /// Triggers a fence of the SYNC extension.
    pub fn trigger_fence(&mut self, fence: Fence) -> (done: Result<(), BreadError>)
        requires
            old(self).wf(),
        ensures
            final(self).wf(),
            connection_after(old(self).connected(), final(self).connected(), done is Ok),
            request_sent(
                old(self).state(),
                old(self).traffic(),
                old(self).connected(),
                info_of(TriggerFenceRequest { fence }),
                false,
                final(self).state(),
                final(self).traffic(),
                failure_of(done),
            ),
    {
        self.send_void(TriggerFenceRequest { fence })
    }

    /// Destroys a fence of the SYNC extension.
    pub fn free_sync_fence(&mut self, fence: Fence) -> (done: Result<(), BreadError>)
        requires
            old(self).wf(),
        ensures
            final(self).wf(),
            connection_after(old(self).connected(), final(self).connected(), done is Ok),
            request_sent(
                old(self).state(),
                old(self).traffic(),
                old(self).connected(),
                info_of(DestroyFenceRequest { fence }),
                false,
                final(self).state(),
                final(self).traffic(),
                failure_of(done),
            ),
    {
        self.send_void(DestroyFenceRequest { fence })
    }

    /// Makes a region of the XFIXES extension from `rectangles`, under an
    /// identifier issued for it. Without an identifier left nothing is
    /// sent; neither are more rectangles than a request can be framed with.
    pub fn create_region(&mut self, rectangles: Vec<Rectangle>) -> (region: Result<
        Region,
        BreadError,
    >)
        requires
            old(self).wf(),
        ensures
            final(self).wf(),
            connection_after(old(self).connected(), final(self).connected(), region is Ok),
            match old(self).state().xid.peek() {
                None => {
                    &&& region == Err::<Region, BreadError>(BreadError::NoXID)
                    &&& final(self).state() == old(self).state()
                    &&& final(self).traffic() == old(self).traffic()
                },
                Some(id) => {
                    &&& region matches Ok(made) ==> made.xid == id
                    &&& rectangles@.len() > max_rectangles() ==> {
                        &&& region == Err::<Region, BreadError>(BreadError::Io(IoErrorKind::Other))
                        &&& final(self).traffic() == old(self).traffic()
                        &&& final(self).state() == (VariantState {
                            xid: old(self).state().xid.advance(),
                            ..old(self).state()
                        })
                    }
                    &&& rectangles@.len() <= max_rectangles() ==> request_sent(
                        VariantState {
                            xid: old(self).state().xid.advance(),
                            ..old(self).state()
                        },
                        old(self).traffic(),
                        old(self).connected(),
                        create_region_info(Region { xid: id }, rectangles@),
                        false,
                        final(self).state(),
                        final(self).traffic(),
                        failure_of(region),
                    )
                },
            },
    {
        let ghost before = self.state();
        let xid = match self.generate_xid() {
            Ok(id) => Region::from_xid(id),
            Err(e) => {
                assert(self.state() == before);
                return Err(e);
            },
        };
        let req = match CreateRegionRequest::new(xid, rectangles) {
            Some(req) => req,
            None => {
                return Err(BreadError::Io(IoErrorKind::Other));
            },
        };
        match self.send_void(req) {
            Ok(()) => Ok(xid),
            Err(e) => Err(e),
        }
    }
}

impl Region {
    /// Destroys this region.
    pub fn destroy<Conn: Connection, Var: DisplayVariant>(
        self,
        dpy: &mut Display<Conn, Var>,
    ) -> (done: Result<(), BreadError>)
        requires
            old(dpy).wf(),
        ensures
            final(dpy).wf(),
            connection_after(old(dpy).connected(), final(dpy).connected(), done is Ok),
            request_sent(
                old(dpy).state(),
                old(dpy).traffic(),
                old(dpy).connected(),
                info_of(DestroyRegionRequest { region: self }),
                false,
                final(dpy).state(),
                final(dpy).traffic(),
                failure_of(done),
            ),
    {
        dpy.send_void(DestroyRegionRequest { region: self })
    }
}

impl Cursor {
    /// Frees this cursor.
    pub fn free<Conn: Connection, Var: DisplayVariant>(self, dpy: &mut Display<Conn, Var>) -> (done:
        Result<(), BreadError>)
        requires
            old(dpy).wf(),
        ensures
            final(dpy).wf(),
            connection_after(old(dpy).connected(), final(dpy).connected(), done is Ok),
            request_sent(
                old(dpy).state(),
                old(dpy).traffic(),
                old(dpy).connected(),
                info_of(FreeCursorRequest { cursor: self }),
                false,
                final(dpy).state(),
                final(dpy).traffic(),
                failure_of(done),
            ),
    {
        dpy.send_void(FreeCursorRequest { cursor: self })
    }
}

impl Pixmap {
    /// Frees the memory that this pixmap uses.
    pub fn free<Conn: Connection, Var: DisplayVariant>(self, dpy: &mut Display<Conn, Var>) -> (done:
        Result<(), BreadError>)
        requires
            old(dpy).wf(),
        ensures
            final(dpy).wf(),
            connection_after(old(dpy).connected(), final(dpy).connected(), done is Ok),
            request_sent(
                old(dpy).state(),
                old(dpy).traffic(),
                old(dpy).connected(),
                info_of(FreePixmapRequest { pixmap: self }),
                false,
                final(dpy).state(),
                final(dpy).traffic(),
                failure_of(done),
            ),
    {
        dpy.send_void(FreePixmapRequest { pixmap: self })
    }
}

} // verus!
