//! Requests: what a request type tells the display about itself, the frame
//! that goes on the wire, and the record kept while the answer is awaited.

use crate::packet::PacketBuf;
use crate::wire::{u16_at, u32_at, read_u32};
use core::marker::PhantomData;
use vstd::prelude::*;
use vstd::string::StringSliceAdditionalSpecFns;

verus! {

/// A file descriptor that travels beside a packet.
pub type Fd = i32;

/// The length of an extension cache key.
pub const EXT_KEY_SIZE: usize = 24;

/// What has to be done to the reply of a request before it is read.
#[derive(Debug, Clone, Copy, PartialEq, Eq, Structural)]
pub enum RequestWorkaround {
    NoWorkaround,
    /// The server reports half the true length of the reply.
    GlxFbconfigBug,
}

/// How the answer to a request is to be treated.
#[derive(Debug, Clone, Copy, PartialEq, Eq, Structural)]
pub struct PendingRequestFlags {
    pub discard_reply: bool,
    pub checked: bool,
    pub expects_fds: bool,
    pub workaround: RequestWorkaround,
}

impl Default for PendingRequestFlags {
    fn default() -> (flags: Self)
        ensures
            flags == (PendingRequestFlags {
                discard_reply: false,
                checked: false,
                expects_fds: false,
                workaround: RequestWorkaround::NoWorkaround,
            }),
    {
        PendingRequestFlags {
            discard_reply: false,
            checked: false,
            expects_fds: false,
            workaround: RequestWorkaround::NoWorkaround,
        }
    }
}

/// A request that was sent and whose answer has not been retrieved.
#[derive(Debug, Clone, Copy, PartialEq, Eq, Structural)]
pub struct PendingRequest {
    pub request: u16,
    pub flags: PendingRequestFlags,
}

/// Whether a pending request outlives the end of checked mode: one that was
/// only recorded because of that mode does not.
pub fn survives_unchecked(pending: &PendingRequest) -> (keep: bool)
    ensures
        keep == !pending.flags.checked,
{
    !pending.flags.checked
}

/// The handle that a sent request leaves behind, to be redeemed for the
/// reply later.
#[derive(Debug)]
pub struct RequestCookie<R> {
    sequence: u16,
    _phantom: PhantomData<R>,
}

impl<R> RequestCookie<R> {
    pub closed spec fn spec_sequence(&self) -> u16 {
        self.sequence
    }

    pub fn from_sequence(sequence: u16) -> (cookie: Self)
        ensures
            cookie.spec_sequence() == sequence,
    {
        RequestCookie { sequence, _phantom: PhantomData }
    }

    pub fn sequence(&self) -> (sequence: u16)
        ensures
            sequence == self.spec_sequence(),
    {
        self.sequence
    }
}

/// What the display needs to know of a request.
pub trait Request {
    /// The request's opcode: the major one of a core request, the minor one
    /// of an extension request.
    spec fn spec_opcode(&self) -> u8;

    /// The UTF-8 bytes of the name of the extension that the request
    /// belongs to.
    spec fn spec_extension(&self) -> Option<Seq<u8>>;

    /// The size of the reply type, 0 for a request without a reply.
    spec fn spec_reply_size(&self) -> nat;

    spec fn spec_reply_expects_fds(&self) -> bool;

    /// The bytes of this request, header included.
    spec fn spec_body(&self) -> Seq<u8>;

    /// The buffer length that the request asks for.
    spec fn spec_size(&self) -> nat;

    /// The file descriptors that go out beside the request.
    spec fn spec_fds(&self) -> Seq<Fd>;

    fn opcode(&self) -> (opcode: u8)
        ensures
            opcode == self.spec_opcode(),
    ;

    fn extension(&self) -> (extension: Option<&'static str>)
        ensures
            extension matches Some(name) ==> self.spec_extension() == Some(name.spec_bytes()),
            extension is None ==> self.spec_extension() is None,
    ;

    fn reply_size(&self) -> (size: usize)
        ensures
            size == self.spec_reply_size(),
    ;

    fn reply_expects_fds(&self) -> (expects: bool)
        ensures
            expects == self.spec_reply_expects_fds(),
    ;

    /// A buffer length that is enough for [`Request::as_bytes`].
    fn size(&self) -> (size: usize)
        ensures
            size == self.spec_size(),
            size >= self.spec_body().len(),
    ;

    /// Writes the request to the head of `bytes` and returns how many bytes
    /// it took.
    fn as_bytes(&self, bytes: &mut [u8]) -> (len: usize)
        requires
            old(bytes)@.len() >= self.spec_body().len(),
        ensures
            final(bytes)@.len() == old(bytes)@.len(),
            len == self.spec_body().len(),
            final(bytes)@.subrange(0, len as int) == self.spec_body(),
    ;

    /// The file descriptors to send beside the request.
    fn file_descriptors(&mut self) -> (fds: Option<&mut Vec<Fd>>)
        ensures
            fds matches Some(held) ==> held@ == old(self).spec_fds(),
            fds is None ==> old(self).spec_fds().len() == 0,
    ;
}

/// What a request says of itself, as plain values.
pub struct RequestInfo {
    pub opcode: u8,
    pub extension: Option<Seq<u8>>,
    pub reply_size: nat,
    pub reply_expects_fds: bool,
    pub body: Seq<u8>,
    pub size: nat,
    pub fds: Seq<Fd>,
}

/// What `req` says of itself.
pub open spec fn info_of<R: Request>(req: R) -> RequestInfo {
    RequestInfo {
        opcode: req.spec_opcode(),
        extension: req.spec_extension(),
        reply_size: req.spec_reply_size(),
        reply_expects_fds: req.spec_reply_expects_fds(),
        body: req.spec_body(),
        size: req.spec_size(),
        fds: req.spec_fds(),
    }
}

/// A request given by its parts, for callers that frame their requests
/// themselves.
pub struct RawRequest {
    pub opcode: u8,
    pub extension: Option<&'static str>,
    pub reply_size: usize,
    pub reply_expects_fds: bool,
    pub body: Vec<u8>,
    pub fds: Vec<Fd>,
}

impl Request for RawRequest {
    open spec fn spec_opcode(&self) -> u8 {
        self.opcode
    }

    open spec fn spec_extension(&self) -> Option<Seq<u8>> {
        match self.extension {
            Some(name) => Some(name.spec_bytes()),
            None => None,
        }
    }

    open spec fn spec_reply_size(&self) -> nat {
        self.reply_size as nat
    }

    open spec fn spec_reply_expects_fds(&self) -> bool {
        self.reply_expects_fds
    }

    open spec fn spec_body(&self) -> Seq<u8> {
        self.body@
    }

    open spec fn spec_size(&self) -> nat {
        self.body@.len()
    }

    open spec fn spec_fds(&self) -> Seq<Fd> {
        self.fds@
    }

    fn opcode(&self) -> (opcode: u8) {
        self.opcode
    }

    fn extension(&self) -> (extension: Option<&'static str>) {
        self.extension
    }

    fn reply_size(&self) -> (size: usize) {
        self.reply_size
    }

    fn reply_expects_fds(&self) -> (expects: bool) {
        self.reply_expects_fds
    }

    fn size(&self) -> (size: usize) {
        self.body.len()
    }

    fn as_bytes(&self, bytes: &mut [u8]) -> (len: usize) {
        let n: usize = self.body.len();
        let mut i: usize = 0;
        while i < n
            invariant
                i <= n,
                n == self.body@.len(),
                bytes@.len() == old(bytes)@.len(),
                bytes@.len() >= n,
                bytes@.subrange(0, i as int) == self.body@.subrange(0, i as int),
            decreases n - i,
        {
            bytes[i] = self.body[i];
            assert(bytes@.subrange(0, i + 1) =~= self.body@.subrange(0, i + 1)) by {
                assert forall|j: int| 0 <= j < i + 1 implies bytes@[j] == self.body@[j] by {
                    if j < i {
                        assert(bytes@[j] == bytes@.subrange(0, i as int)[j]);
                        assert(self.body@[j] == self.body@.subrange(0, i as int)[j]);
                    }
                }
            }
            i = i + 1;
        }
        assert(self.body@.subrange(0, n as int) =~= self.body@);
        n
    }

    fn file_descriptors(&mut self) -> (fds: Option<&mut Vec<Fd>>) {
        Some(&mut self.fds)
    }
}

/// The length of the frame of a body of `len` bytes: `len` rounded up to a
/// multiple of four, and one header unit where the body is empty.
pub open spec fn frame_len(len: nat) -> nat {
    if len == 0 {
        4
    } else {
        (((len + 3) / 4) * 4) as nat
    }
}

/// The frame that goes on the wire for `body`. An extension request starts
/// with the extension's major opcode, followed by the request's own; a core
/// request starts with its opcode and keeps its second byte. Bytes 2 and 3
/// hold the frame's length in 4-byte units, low byte first. The rest is the
/// body, padded with zeros.
pub open spec fn spec_frame(body: Seq<u8>, opcode: u8, ext_opcode: Option<u8>) -> Seq<u8> {
    let units = frame_len(body.len()) / 4;
    Seq::new(
        frame_len(body.len()),
        |i: int|
            if i == 0 {
                match ext_opcode {
                    Some(major) => major,
                    None => opcode,
                }
            } else if i == 1 && ext_opcode is Some {
                opcode
            } else if i == 2 {
                (units % 256) as u8
            } else if i == 3 {
                ((units / 256) % 256) as u8
            } else if i < body.len() {
                body[i]
            } else {
                0u8
            },
    )
}

/// Every frame whose length fits the 16 bits of its length field is a whole
/// number of 4-byte units, says so in bytes 2 and 3, and carries the
/// request's opcode in its first byte, or in its second behind the
/// extension's.
pub proof fn lemma_frame_shape(body: Seq<u8>, opcode: u8, ext_opcode: Option<u8>)
    requires
        frame_len(body.len()) <= 4 * 0xffff,
    ensures
        spec_frame(body, opcode, ext_opcode).len() % 4 == 0,
        spec_frame(body, opcode, ext_opcode).len() >= 4,
        u16_at(spec_frame(body, opcode, ext_opcode), 2) * 4 == spec_frame(
            body,
            opcode,
            ext_opcode,
        ).len(),
        ext_opcode is None ==> spec_frame(body, opcode, ext_opcode)[0] == opcode,
        ext_opcode matches Some(major) ==> spec_frame(body, opcode, ext_opcode)[0] == major
            && spec_frame(body, opcode, ext_opcode)[1] == opcode,
{
    let frame = spec_frame(body, opcode, ext_opcode);
    let units = frame_len(body.len()) / 4;
    assert(frame[2] == (units % 256) as u8);
    assert(frame[3] == ((units / 256) % 256) as u8);
    assert(units <= 0xffff);
    assert(units % 256 + 256 * ((units / 256) % 256) == units);
}

/// A request that writes no bytes goes out as one header unit: its opcode
/// bytes, and the length 1.
pub proof fn lemma_empty_body_frame(opcode: u8, ext_opcode: Option<u8>)
    ensures
        spec_frame(Seq::empty(), opcode, ext_opcode) == (match ext_opcode {
            Some(major) => seq![major, opcode, 1u8, 0u8],
            None => seq![opcode, 0u8, 1u8, 0u8],
        }),
{
    let frame = spec_frame(Seq::empty(), opcode, ext_opcode);
    match ext_opcode {
        Some(major) => {
            assert(frame =~= seq![major, opcode, 1u8, 0u8]);
        },
        None => {
            assert(frame =~= seq![opcode, 0u8, 1u8, 0u8]);
        },
    }
}

/// The first `len` bytes of `bytes`, or all of them where there are fewer.
pub open spec fn head(bytes: Seq<u8>, len: nat) -> Seq<u8> {
    if len < bytes.len() {
        bytes.subrange(0, len as int)
    } else {
        bytes
    }
}

/// Turns the buffer that a request was written to into its frame: cuts it
/// to the `len` bytes that the request took, pads, and patches the header.
pub fn encode_frame(buf: PacketBuf, len: usize, opcode: u8, ext_opcode: Option<u8>) -> (frame:
    PacketBuf)
    requires
        buf@.len() + 3 <= isize::MAX,
    ensures
        frame@ == spec_frame(head(buf@, len as nat), opcode, ext_opcode),
{
    let mut bytes = buf;
    bytes.truncate(len);
    let ghost body = bytes@;
    let body_len: usize = bytes.len();
    let padded: usize = if body_len == 0 {
        4
    } else {
        ((body_len + 3) / 4) * 4
    };
    bytes.resize_zeroed(padded);
    match ext_opcode {
        None => {
            bytes.set(0, opcode);
        },
        Some(major) => {
            bytes.set(0, major);
            bytes.set(1, opcode);
        },
    }
    let units: usize = padded / 4;
    bytes.set(2, (units % 256) as u8);
    bytes.set(3, ((units / 256) % 256) as u8);
    assert(bytes@ =~= spec_frame(body, opcode, ext_opcode));
    bytes
}

/// The UTF-8 bytes of the name of the GLX extension.
pub open spec fn glx_name() -> Seq<u8> {
    seq![71u8, 76u8, 88u8]
}

/// Whether the reply to the request with this frame needs the GLX length
/// workaround: every GLX request with opcode 21 does, and one with opcode
/// 17 whose word at bytes 32 to 35 is 0x10004.
pub open spec fn needs_glx_workaround(
    extension: Option<Seq<u8>>,
    opcode: u8,
    frame: Seq<u8>,
) -> bool {
    extension == Some(glx_name()) && (opcode == 21 || (opcode == 17 && frame.len() >= 36 && u32_at(
        frame,
        32,
    ) == 0x10004))
}

/// Decides whether the GLX length workaround applies.
pub fn detect_glx_workaround(extension: Option<&str>, opcode: u8, frame: &[u8]) -> (applies: bool)
    ensures
        applies == needs_glx_workaround(
            match extension {
                Some(name) => Some(name.spec_bytes()),
                None => None,
            },
            opcode,
            frame@,
        ),
{
    match extension {
        None => false,
        Some(name) => {
            let bytes = name.as_bytes();
            let is_glx = bytes.len() == 3 && bytes[0] == 71 && bytes[1] == 76 && bytes[2] == 88;
            proof {
                if is_glx {
                    assert(bytes@ =~= glx_name());
                }
            }
            is_glx && (opcode == 21 || (opcode == 17 && frame.len() >= 36 && read_u32(frame, 32)
                == 0x10004))
        },
    }
}

/// The key under which an extension is cached: the first 24 bytes of its
/// name, filled up with zeros.
pub open spec fn ext_key(name: Seq<u8>) -> Seq<u8> {
    Seq::new(EXT_KEY_SIZE as nat, |i: int| if i < name.len() { name[i] } else { 0u8 })
}

/// Computes the cache key of an extension name.
pub fn string_as_array_bytes(s: &str) -> (key: [u8; 24])
    ensures
        key@ == ext_key(s.spec_bytes()),
{
    let name = s.as_bytes();
    let mut key: [u8; 24] = [0u8; 24];
    let mut i: usize = 0;
    while i < 24 && i < name.len()
        invariant
            i <= 24,
            i <= name@.len(),
            name@ == s.spec_bytes(),
            forall|j: int| 0 <= j < i ==> key@[j] == name@[j],
            forall|j: int| i <= j < 24 ==> key@[j] == 0u8,
        decreases 24 - i,
    {
        key[i] = name[i];
        i = i + 1;
    }
    assert(key@ =~= ext_key(s.spec_bytes()));
    key
}

} // verus!
