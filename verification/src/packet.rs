//! IPv4 datagrams, as far as the mesh reads them: whether the bytes are a
//! datagram, where it comes from and where it goes.

use vstd::prelude::*;
use crate::addr::Ipv4Addr;
use crate::message::MessageError;

verus! {

/// The shortest IPv4 header, in bytes.
pub const MIN_DATAGRAM_LEN: usize = 20;

/// The header length that the first byte announces, in bytes.
pub open spec fn announced_header_len(bytes: Seq<u8>) -> nat
    recommends
        bytes.len() >= 1,
{
    ((bytes[0] % 16) * 4) as nat
}

/// The total length that the third and fourth byte announce, in bytes.
pub open spec fn announced_total_len(bytes: Seq<u8>) -> nat
    recommends
        bytes.len() >= 4,
{
    (bytes[2] * 256 + bytes[3]) as nat
}

/// Whether `bytes` start with an IPv4 datagram: at least twenty bytes, the
/// version 4, and no fewer bytes than the header length and the total length
/// that the header announces.
pub open spec fn is_datagram(bytes: Seq<u8>) -> bool {
    &&& bytes.len() >= MIN_DATAGRAM_LEN
    &&& bytes[0] / 16 == 4
    &&& bytes.len() >= announced_header_len(bytes)
    &&& bytes.len() >= announced_total_len(bytes)
}

/// The number of bytes that belong to the datagram: the announced total
/// length, or the announced header length where that is larger.
pub open spec fn datagram_len(bytes: Seq<u8>) -> nat
    recommends
        is_datagram(bytes),
{
    if announced_total_len(bytes) >= announced_header_len(bytes) {
        announced_total_len(bytes)
    } else {
        announced_header_len(bytes)
    }
}

/// The source address of a datagram: bytes 12 to 15.
pub open spec fn source_of(bytes: Seq<u8>) -> Ipv4Addr
    recommends
        is_datagram(bytes),
{
    Ipv4Addr { a: bytes[12], b: bytes[13], c: bytes[14], d: bytes[15] }
}

/// The destination address of a datagram: bytes 16 to 19.
pub open spec fn destination_of(bytes: Seq<u8>) -> Ipv4Addr
    recommends
        is_datagram(bytes),
{
    Ipv4Addr { a: bytes[16], b: bytes[17], c: bytes[18], d: bytes[19] }
}

/// Calls `packet::ip::v4::Packet::new` on the bytes and says whether it
/// accepted them. Trusted: the parser accepts exactly the byte strings that
/// `is_datagram` describes.
#[verifier::external_body]
fn parser_accepts(buffer: &Vec<u8>) -> (accepted: bool)
    ensures
        accepted == is_datagram(buffer@),
{
    packet::ip::v4::Packet::new(buffer.as_slice()).is_ok()
}

/// Calls `packet::ip::v4::Packet::source` on an accepted datagram. Trusted:
/// the address is made of bytes 12 to 15.
#[verifier::external_body]
fn parser_source(buffer: &Vec<u8>) -> (octets: [u8; 4])
    requires
        is_datagram(buffer@),
    ensures
        octets@ == buffer@.subrange(12, 16),
{
    packet::ip::v4::Packet::unchecked(buffer.as_slice()).source().octets()
}

/// Calls `packet::ip::v4::Packet::destination` on an accepted datagram.
/// Trusted: the address is made of bytes 16 to 19.
#[verifier::external_body]
fn parser_destination(buffer: &Vec<u8>) -> (octets: [u8; 4])
    requires
        is_datagram(buffer@),
    ensures
        octets@ == buffer@.subrange(16, 20),
{
    packet::ip::v4::Packet::unchecked(buffer.as_slice()).destination().octets()
}

/// Calls `as_ref` of `packet::ip::v4::Packet` on an accepted datagram.
/// Trusted: it gives the first `datagram_len` bytes of the buffer.
#[verifier::external_body]
fn parser_bytes(buffer: &Vec<u8>) -> (bytes: Vec<u8>)
    requires
        is_datagram(buffer@),
    ensures
        bytes@ == buffer@.subrange(0, datagram_len(buffer@) as int),
{
    packet::ip::v4::Packet::unchecked(buffer.as_slice()).as_ref().to_vec()
}

/// An IPv4 datagram in a buffer that may hold more bytes behind it.
#[derive(Debug)]
pub struct Ipv4Packet {
    buffer: Vec<u8>,
}

impl View for Ipv4Packet {
    type V = Seq<u8>;

    closed spec fn view(&self) -> Seq<u8> {
        self.buffer@
    }
}

impl Clone for Ipv4Packet {
    fn clone(&self) -> (copy: Self)
        ensures
            copy@ == self@,
            is_datagram(self@),
    {
        proof {
            use_type_invariant(self);
        }
        Ipv4Packet { buffer: self.buffer.clone() }
    }
}

impl Ipv4Packet {
    #[verifier::type_invariant]
    closed spec fn holds_datagram(&self) -> bool {
        is_datagram(self.buffer@)
    }

    /// Takes the buffer as a packet if it starts with an IPv4 datagram.
    pub fn new(buffer: Vec<u8>) -> (parsed: Result<Self, MessageError>)
        ensures
            is_datagram(buffer@) ==> parsed.is_ok() && parsed.unwrap()@ == buffer@,
            !is_datagram(buffer@) ==> parsed == Err::<Self, MessageError>(MessageError::InvalidPacket),
    {
        if parser_accepts(&buffer) {
            Ok(Ipv4Packet { buffer })
        } else {
            Err(MessageError::InvalidPacket)
        }
    }

    /// Source IP address.
    pub fn source(&self) -> (addr: Ipv4Addr)
        ensures
            is_datagram(self@),
            addr == source_of(self@),
    {
        proof {
            use_type_invariant(self);
        }
        let octets = parser_source(&self.buffer);
        assert(octets@[0] == self.buffer@.subrange(12, 16)[0]);
        assert(octets@[1] == self.buffer@.subrange(12, 16)[1]);
        assert(octets@[2] == self.buffer@.subrange(12, 16)[2]);
        assert(octets@[3] == self.buffer@.subrange(12, 16)[3]);
        Ipv4Addr::new(octets[0], octets[1], octets[2], octets[3])
    }

    /// Destination IP address.
    pub fn destination(&self) -> (addr: Ipv4Addr)
        ensures
            is_datagram(self@),
            addr == destination_of(self@),
    {
        proof {
            use_type_invariant(self);
        }
        let octets = parser_destination(&self.buffer);
        assert(octets@[0] == self.buffer@.subrange(16, 20)[0]);
        assert(octets@[1] == self.buffer@.subrange(16, 20)[1]);
        assert(octets@[2] == self.buffer@.subrange(16, 20)[2]);
        assert(octets@[3] == self.buffer@.subrange(16, 20)[3]);
        Ipv4Addr::new(octets[0], octets[1], octets[2], octets[3])
    }

    /// The bytes of the datagram, without what the buffer holds behind it.
    pub fn to_bytes(&self) -> (bytes: Vec<u8>)
        ensures
            is_datagram(self@),
            bytes@ == self@.subrange(0, datagram_len(self@) as int),
    {
        proof {
            use_type_invariant(self);
        }
        parser_bytes(&self.buffer)
    }
}

} // verus!
