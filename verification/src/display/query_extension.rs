//! The request that asks the server for an extension, and its reply.

use crate::display::Packet;
use crate::request::{spec_frame, Fd, Request, RequestInfo};
use vstd::prelude::*;
use vstd::string::StringSliceAdditionalSpecFns;

verus! {

/// The opcode of the core request that asks for an extension.
pub const QUERY_EXTENSION: u8 = 98;

/// The body of the request that asks for the extension named `name`: the
/// header, the name's length in bytes 4 and 5, and from byte 8 on the name.
pub open spec fn query_extension_body(name: Seq<u8>) -> Seq<u8> {
    seq![
        QUERY_EXTENSION,
        0u8,
        0u8,
        0u8,
        (name.len() % 256) as u8,
        ((name.len() / 256) % 256) as u8,
        0u8,
        0u8,
    ] + name
}

/// The frame of the request that asks for the extension named `name`.
pub open spec fn query_frame(name: Seq<u8>) -> Seq<u8> {
    spec_frame(query_extension_body(name), QUERY_EXTENSION, None)
}

/// What the request that asks for the extension named `name` says of
/// itself.
pub open spec fn query_info(name: Seq<u8>) -> RequestInfo {
    RequestInfo {
        opcode: QUERY_EXTENSION,
        extension: None,
        reply_size: 32,
        reply_expects_fds: false,
        body: query_extension_body(name),
        size: 8 + name.len(),
        fds: Seq::empty(),
    }
}

/// The request that asks the server for an extension's opcodes.
pub struct QueryExtensionRequest {
    name: Vec<u8>,
}

impl QueryExtensionRequest {
    #[verifier::type_invariant]
    spec fn name_fits(self) -> bool {
        self.name@.len() <= 0xffff
    }

    /// The UTF-8 bytes of the name asked for.
    pub closed spec fn spec_name(&self) -> Seq<u8> {
        self.name@
    }

    /// The request for the extension `name`, unless the name is too long
    /// for the 16 bits that carry its length.
    pub fn new(name: &str) -> (req: Option<Self>)
        ensures
            req is Some == (name.spec_bytes().len() <= 0xffff),
            req matches Some(r) ==> r.spec_name() == name.spec_bytes(),
    {
        let bytes = name.as_bytes();
        if bytes.len() > 0xffff {
            return None;
        }
        let mut held: Vec<u8> = Vec::new();
        let mut i: usize = 0;
        while i < bytes.len()
            invariant
                i <= bytes@.len(),
                held@ == bytes@.subrange(0, i as int),
            decreases bytes@.len() - i,
        {
            held.push(bytes[i]);
            assert(held@ =~= bytes@.subrange(0, i + 1));
            i = i + 1;
        }
        assert(held@ =~= bytes@);
        Some(QueryExtensionRequest { name: held })
    }
}

impl Request for QueryExtensionRequest {
    open spec fn spec_opcode(&self) -> u8 {
        QUERY_EXTENSION
    }

    open spec fn spec_extension(&self) -> Option<Seq<u8>> {
        None
    }

    open spec fn spec_reply_size(&self) -> nat {
        32
    }

    open spec fn spec_reply_expects_fds(&self) -> bool {
        false
    }

    open spec fn spec_body(&self) -> Seq<u8> {
        query_extension_body(self.spec_name())
    }

    open spec fn spec_size(&self) -> nat {
        8 + self.spec_name().len()
    }

    open spec fn spec_fds(&self) -> Seq<Fd> {
        Seq::empty()
    }

    fn opcode(&self) -> (opcode: u8) {
        QUERY_EXTENSION
    }

    fn extension(&self) -> (extension: Option<&'static str>) {
        None
    }

    fn reply_size(&self) -> (size: usize) {
        32
    }

    fn reply_expects_fds(&self) -> (expects: bool) {
        false
    }

    fn size(&self) -> (size: usize) {
        proof {
            use_type_invariant(self);
        }
        8 + self.name.len()
    }

    fn as_bytes(&self, bytes: &mut [u8]) -> (len: usize) {
        proof {
            use_type_invariant(self);
        }
        let n: usize = self.name.len();
        bytes[0] = QUERY_EXTENSION;
        bytes[1] = 0;
        bytes[2] = 0;
        bytes[3] = 0;
        bytes[4] = (n % 256) as u8;
        bytes[5] = ((n / 256) % 256) as u8;
        bytes[6] = 0;
        bytes[7] = 0;
        let mut i: usize = 0;
        while i < n
            invariant
                i <= n,
                n == self.name@.len(),
                n <= 0xffff,
                bytes@.len() == old(bytes)@.len(),
                bytes@.len() >= 8 + n,
                bytes@.subrange(0, 8) == query_extension_body(self.name@).subrange(0, 8),
                forall|j: int| 0 <= j < i ==> bytes@[8 + j] == self.name@[j],
            decreases n - i,
        {
            let ghost before = bytes@;
            bytes[8 + i] = self.name[i];
            assert(bytes@.subrange(0, 8) =~= before.subrange(0, 8));
            i = i + 1;
        }
        assert(bytes@.subrange(0, 8 + n) =~= query_extension_body(self.name@)) by {
            assert forall|j: int| 0 <= j < 8 + n implies bytes@[j] == query_extension_body(
                self.name@,
            )[j] by {
                if j < 8 {
                    assert(bytes@.subrange(0, 8)[j] == query_extension_body(self.name@).subrange(
                        0,
                        8,
                    )[j]);
                }
            }
        }
        8 + n
    }

    fn file_descriptors(&mut self) -> (fds: Option<&mut Vec<Fd>>) {
        None
    }
}

/// What the server says of an extension.
#[derive(Debug, Clone, Copy, PartialEq, Eq, Structural)]
pub struct QueryExtensionReply {
    pub present: bool,
    pub major_opcode: u8,
    pub first_event: u8,
    pub first_error: u8,
}

/// The answer that the reply `bytes` holds: whether the server has the
/// extension in byte 8, its major opcode in byte 9, its first event and
/// first error in bytes 10 and 11. A reply too short for these says that the
/// extension is not there.
pub open spec fn parse_query_extension_reply(bytes: Seq<u8>) -> QueryExtensionReply {
    if bytes.len() >= 12 {
        QueryExtensionReply {
            present: bytes[8] != 0,
            major_opcode: bytes[9],
            first_event: bytes[10],
            first_error: bytes[11],
        }
    } else {
        QueryExtensionReply { present: false, major_opcode: 0, first_event: 0, first_error: 0 }
    }
}

impl QueryExtensionReply {
    /// Reads the server's answer from the reply.
    pub fn from_bytes(bytes: &[u8]) -> (reply: Self)
        ensures
            reply == parse_query_extension_reply(bytes@),
    {
        if bytes.len() >= 12 {
            QueryExtensionReply {
                present: bytes[8] != 0,
                major_opcode: bytes[9],
                first_event: bytes[10],
                first_error: bytes[11],
            }
        } else {
            QueryExtensionReply { present: false, major_opcode: 0, first_event: 0, first_error: 0 }
        }
    }
}

/// What goes to the connection to ask for the extension named `name`.
pub open spec fn query_packet(name: Seq<u8>) -> Packet {
    Packet { bytes: query_frame(name), fds: Seq::empty() }
}

} // verus!
