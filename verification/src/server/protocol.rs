//! The session routing header in front of every relayed datagram.

use vstd::prelude::*;

use crate::bytes;
use crate::bytes::{be_u32, push_all, read_be_u32};
use crate::text;
use crate::text::push_decimal;

verus! {

/// Session routing header of eight bytes: destination session id, then sender session id, each of
/// 32 bits, most significant byte first.
#[derive(Clone, Copy, Debug, PartialEq, Eq, Hash, Structural)]
pub struct MineshaftHeader {
    pub target_session_id: u32,
    pub sender_session_id: u32,
}

pub const MINESHAFT_HEADER_LEN: usize = 8;

/// Why bytes do not begin with a header.
#[derive(Debug, PartialEq, Eq, Structural)]
pub enum HeaderError {
    /// Fewer than eight bytes; carries their number.
    PacketTooShort(usize),
}

impl HeaderError {
    /// What the error's message says.
    pub open spec fn message(&self) -> Seq<char> {
        match *self {
            HeaderError::PacketTooShort(n) => {
                "Packet too short for Mineshaft header (expected at least 8 bytes, got "@
                    + text::decimal(n as nat) + ")"@
            },
        }
    }

    /// The error in words.
    pub fn display(&self) -> (r: String)
        ensures
            r@ == self.message(),
    {
        match self {
            HeaderError::PacketTooShort(n) => {
                let mut out =
                    "Packet too short for Mineshaft header (expected at least 8 bytes, got ".to_owned();
                push_decimal(&mut out, *n as u64);
                out.append(")");
                out
            },
        }
    }
}

/// The eight bytes of a header.
pub open spec fn header_bytes(h: MineshaftHeader) -> Seq<u8> {
    bytes::be_bytes(h.target_session_id as nat, 4) + bytes::be_bytes(
        h.sender_session_id as nat,
        4,
    )
}

/// A packet: the header, then the payload.
pub open spec fn packet_bytes(h: MineshaftHeader, payload: Seq<u8>) -> Seq<u8> {
    header_bytes(h) + payload
}

/// Whether the bytes begin with the given header.
pub open spec fn begins_with_header(buf: Seq<u8>, h: MineshaftHeader) -> bool {
    &&& buf.len() >= MINESHAFT_HEADER_LEN
    &&& h.target_session_id as nat == bytes::be_value(buf.subrange(0, 4))
    &&& h.sender_session_id as nat == bytes::be_value(buf.subrange(4, 8))
}

impl MineshaftHeader {
    pub fn new(target_session_id: u32, sender_session_id: u32) -> (r: Self)
        ensures
            r.target_session_id == target_session_id,
            r.sender_session_id == sender_session_id,
    {
        MineshaftHeader { target_session_id, sender_session_id }
    }

    /// A handshake or keepalive header, in which target and sender are the same session.
    pub fn handshake(session_id: u32) -> (r: Self)
        ensures
            r.target_session_id == session_id,
            r.sender_session_id == session_id,
    {
        MineshaftHeader { target_session_id: session_id, sender_session_id: session_id }
    }

    pub fn is_handshake(&self) -> (r: bool)
        ensures
            r == (self.target_session_id == self.sender_session_id),
    {
        self.target_session_id == self.sender_session_id
    }

    /// The header's eight bytes.
    pub fn to_bytes(&self) -> (r: [u8; 8])
        ensures
            r@ == header_bytes(*self),
    {
        let t = be_u32(self.target_session_id);
        let s = be_u32(self.sender_session_id);
        let r: [u8; 8] = [t[0], t[1], t[2], t[3], s[0], s[1], s[2], s[3]];
        assert(r@ == t@ + s@);
        r
    }

    /// Reads the header from the first eight bytes and hands back what follows it.
    pub fn decode(buf: &[u8]) -> (r: Result<(Self, &[u8]), HeaderError>)
        ensures
            match r {
                Ok(p) => begins_with_header(buf@, p.0) && p.1@ == buf@.skip(8),
                Err(e) => buf@.len() < MINESHAFT_HEADER_LEN && e == HeaderError::PacketTooShort(
                    buf@.len() as usize,
                ),
            },
    {
        if buf.len() < MINESHAFT_HEADER_LEN {
            return Err(HeaderError::PacketTooShort(buf.len()));
        }
        let target_session_id = read_be_u32(buf, 0);
        let sender_session_id = read_be_u32(buf, 4);
        let payload = vstd::slice::slice_subrange(buf, MINESHAFT_HEADER_LEN, buf.len());
        assert(payload@ == buf@.skip(8));
        Ok((MineshaftHeader { target_session_id, sender_session_id }, payload))
    }

    /// Puts the header in front of the payload.
    pub fn encapsulate(&self, payload: &[u8]) -> (r: Vec<u8>)
        ensures
            r@ == packet_bytes(*self, payload@),
    {
        let mut buf: Vec<u8> = Vec::new();
        push_all(&mut buf, self.to_bytes().as_slice());
        push_all(&mut buf, payload);
        assert(Seq::<u8>::empty() + header_bytes(*self) == header_bytes(*self));
        buf
    }

    /// The header in words.
    pub fn display(&self) -> (r: String)
        ensures
            r@ == "MineshaftHeader(target="@ + text::decimal(self.target_session_id as nat)
                + ", sender="@ + text::decimal(self.sender_session_id as nat) + ")"@,
    {
        let mut out = "MineshaftHeader(target=".to_owned();
        push_decimal(&mut out, self.target_session_id as u64);
        out.append(", sender=");
        push_decimal(&mut out, self.sender_session_id as u64);
        out.append(")");
        out
    }
}

/// Decoding inverts encapsulating: the packet begins with the very header that was put in front,
/// and what follows is the payload.
pub proof fn decode_inverts_encapsulate(h: MineshaftHeader, payload: Seq<u8>)
    ensures
        begins_with_header(packet_bytes(h, payload), h),
        packet_bytes(h, payload).skip(8) == payload,
{
    let packet = packet_bytes(h, payload);
    bytes::byte_ranges();
    bytes::be_value_inverts_be_bytes(h.target_session_id as nat, 4);
    bytes::be_value_inverts_be_bytes(h.sender_session_id as nat, 4);
    assert(packet.subrange(0, 4) == bytes::be_bytes(h.target_session_id as nat, 4));
    assert(packet.subrange(4, 8) == bytes::be_bytes(h.sender_session_id as nat, 4));
}

/// Encapsulating inverts decoding: the decoded header in front of the decoded payload is the packet
/// that was decoded.
pub proof fn encapsulate_inverts_decode(buf: Seq<u8>, h: MineshaftHeader)
    requires
        begins_with_header(buf, h),
    ensures
        packet_bytes(h, buf.skip(8)) == buf,
{
    bytes::be_bytes_inverts_be_value(buf.subrange(0, 4));
    bytes::be_bytes_inverts_be_value(buf.subrange(4, 8));
    assert(buf.subrange(0, 4) + buf.subrange(4, 8) + buf.skip(8) == buf);
}

/// A buffer begins with at most one header.
pub proof fn header_is_unique(buf: Seq<u8>, a: MineshaftHeader, b: MineshaftHeader)
    requires
        begins_with_header(buf, a),
        begins_with_header(buf, b),
    ensures
        a == b,
{
}

/// A packet is eight bytes of header and then the payload as it is: the target's id in the first
/// four bytes, the sender's in the next four, each with its most significant byte first.
pub proof fn packet_has_its_layout(h: MineshaftHeader, payload: Seq<u8>)
    ensures
        ({
            let p = packet_bytes(h, payload);
            &&& p.len() == 8 + payload.len()
            &&& h.target_session_id == p[0] * 0x100_0000 + p[1] * 0x1_0000 + p[2] * 0x100 + p[3]
            &&& h.sender_session_id == p[4] * 0x100_0000 + p[5] * 0x1_0000 + p[6] * 0x100 + p[7]
            &&& p.subrange(8, p.len() as int) == payload
            &&& header_bytes(h) == p.subrange(0, 8)
        }),
{
    let p = packet_bytes(h, payload);
    let t = bytes::be_bytes(h.target_session_id as nat, 4);
    let s = bytes::be_bytes(h.sender_session_id as nat, 4);
    bytes::written_bytes_weigh_up_to_the_number(h.target_session_id as nat);
    bytes::written_bytes_weigh_up_to_the_number(h.sender_session_id as nat);
    assert(p[0] == t[0] && p[1] == t[1] && p[2] == t[2] && p[3] == t[3]);
    assert(p[4] == s[0] && p[5] == s[1] && p[6] == s[2] && p[7] == s[3]);
    assert(p.subrange(8, p.len() as int) =~= payload);
    assert(header_bytes(h) =~= p.subrange(0, 8));
}

/// A header is read from the first eight bytes: the target's id from the first four, the sender's
/// from the next four; fewer bytes hold none.
pub proof fn header_is_read_from_its_layout(buf: Seq<u8>, h: MineshaftHeader)
    ensures
        begins_with_header(buf, h) <==> {
            &&& buf.len() >= 8
            &&& h.target_session_id == buf[0] * 0x100_0000 + buf[1] * 0x1_0000 + buf[2] * 0x100
                + buf[3]
            &&& h.sender_session_id == buf[4] * 0x100_0000 + buf[5] * 0x1_0000 + buf[6] * 0x100
                + buf[7]
        },
{
    if buf.len() >= 8 {
        bytes::network_order_weighs_early_bytes_most(buf.subrange(0, 4));
        bytes::network_order_weighs_early_bytes_most(buf.subrange(4, 8));
    }
}

/// What an error says: how many bytes there were and how many a header takes.
pub proof fn error_says_how_many_bytes(n: usize)
    ensures
        HeaderError::PacketTooShort(n).message()
            == "Packet too short for Mineshaft header (expected at least 8 bytes, got "@
            + text::decimal(n as nat) + ")"@,
{
}

} // verus!
