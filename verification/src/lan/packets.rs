//! RakNet discovery packets.

use vstd::prelude::*;

use crate::bytes;
use crate::bytes::{be_u16, be_u64, push_all, read_be_u16, read_be_u64};
use crate::io_error::{IoError, IoErrorModel};
use crate::text;
use crate::text::{hex_char, joined, push_decimal};

verus! {

/// The offline message id that every discovery packet carries.
pub const RAKNET_MAGIC: [u8; 16] = [
    0x00,
    0xff,
    0xff,
    0x00,
    0xfe,
    0xfe,
    0xfe,
    0xfe,
    0xfd,
    0xfd,
    0xfd,
    0xfd,
    0x12,
    0x34,
    0x56,
    0x78,
];

pub const ID_UNCONNECTED_PING: u8 = 0x01;

pub const ID_UNCONNECTED_PONG: u8 = 0x1c;

/// Why bytes are no discovery packet, or a text cannot be put into one.
#[derive(Debug)]
pub enum PacketError {
    /// Fewer bytes than the packet's fixed part; carries their number.
    PacketTooShort(usize),
    UnexpectedPacketId { expected: u8, got: u8 },
    InvalidMagic,
    /// The text's bytes, which are not UTF-8.
    Utf8(Vec<u8>),
    /// The identifier's length in bytes, which the length field cannot hold.
    IdentifierTooLong(usize),
    Io(IoError),
}

/// What a [`PacketError`] says, as mathematical values.
pub enum PacketErrorModel {
    PacketTooShort(nat),
    UnexpectedPacketId { expected: u8, got: u8 },
    InvalidMagic,
    Utf8(Seq<u8>),
    IdentifierTooLong(nat),
    Io(IoErrorModel),
}

impl View for PacketError {
    type V = PacketErrorModel;

    open spec fn view(&self) -> PacketErrorModel {
        match *self {
            PacketError::PacketTooShort(n) => PacketErrorModel::PacketTooShort(n as nat),
            PacketError::UnexpectedPacketId { expected, got } => {
                PacketErrorModel::UnexpectedPacketId { expected, got }
            },
            PacketError::InvalidMagic => PacketErrorModel::InvalidMagic,
            PacketError::Utf8(b) => PacketErrorModel::Utf8(b@),
            PacketError::IdentifierTooLong(n) => PacketErrorModel::IdentifierTooLong(n as nat),
            PacketError::Io(e) => PacketErrorModel::Io(e@),
        }
    }
}

/// A byte as two hexadecimal digits behind `0x`.
pub open spec fn hex_byte(b: u8) -> Seq<char> {
    seq!['0', 'x', text::hex_digit((b / 16) as nat), text::hex_digit((b % 16) as nat)]
}

fn push_hex_byte(out: &mut String, b: u8)
    ensures
        final(out)@ == old(out)@ + hex_byte(b),
{
    let ghost before = out@;
    out.push('0');
    out.push('x');
    out.push(hex_char(b / 16));
    out.push(hex_char(b % 16));
    assert(out@ =~= before + hex_byte(b));
}

/// What the error of `String::from_utf8` says of bytes that are not UTF-8.
pub uninterp spec fn utf8_complaint(bytes: Seq<u8>) -> Seq<char>;

/// The words of the error that `String::from_utf8` gives for these bytes, where it gives one, which
/// it does for bytes that are not UTF-8: a function of the bytes. Which words is left unsaid.
#[verifier::external_body]
fn describe_utf8_error(bytes: &Vec<u8>) -> (r: Option<String>)
    ensures
        r is None <==> vstd::utf8::valid_utf8(bytes@),
        r matches Some(words) ==> words@ == utf8_complaint(bytes@),
{
    match String::from_utf8(bytes.clone()) {
        Ok(_) => None,
        Err(e) => Some(e.to_string()),
    }
}

/// What is wrong with bytes that are to be text; nothing is with UTF-8.
pub open spec fn utf8_fault(bytes: Seq<u8>) -> Seq<char> {
    if vstd::utf8::valid_utf8(bytes) {
        Seq::empty()
    } else {
        utf8_complaint(bytes)
    }
}

impl PacketErrorModel {
    /// What the error's message says.
    pub open spec fn message(self) -> Seq<char> {
        match self {
            PacketErrorModel::PacketTooShort(n) => "Packet is too short: "@ + text::decimal(n)
                + " bytes"@,
            PacketErrorModel::UnexpectedPacketId { expected, got } => {
                "Unexpected packet ID: expected "@ + hex_byte(expected) + ", got "@ + hex_byte(got)
            },
            PacketErrorModel::InvalidMagic => "Magic bytes mismatch"@,
            PacketErrorModel::Utf8(b) => "Payload is not valid UTF-8: "@ + utf8_fault(b),
            PacketErrorModel::IdentifierTooLong(n) => {
                "Identifier is too long for the RakNet length field: "@ + text::decimal(n)
                    + " bytes"@
            },
            PacketErrorModel::Io(e) => "IO error: "@ + e.message(),
        }
    }
}

impl PacketError {
    /// The error in words.
    pub fn display(&self) -> (r: String)
        ensures
            r@ == self@.message(),
    {
        match self {
            PacketError::PacketTooShort(n) => {
                let mut out = "Packet is too short: ".to_owned();
                push_decimal(&mut out, *n as u64);
                out.append(" bytes");
                out
            },
            PacketError::UnexpectedPacketId { expected, got } => {
                let mut out = "Unexpected packet ID: expected ".to_owned();
                push_hex_byte(&mut out, *expected);
                out.append(", got ");
                push_hex_byte(&mut out, *got);
                out
            },
            PacketError::InvalidMagic => "Magic bytes mismatch".to_owned(),
            PacketError::Utf8(b) => {
                let mut out = "Payload is not valid UTF-8: ".to_owned();
                if let Some(words) = describe_utf8_error(b) {
                    out.append(words.as_str());
                }
                out
            },
            PacketError::IdentifierTooLong(n) => {
                let mut out = "Identifier is too long for the RakNet length field: ".to_owned();
                push_decimal(&mut out, *n as u64);
                out.append(" bytes");
                out
            },
            PacketError::Io(e) => joined("IO error: ", e.display().as_str()),
        }
    }
}

/// The error of `String::from_utf8`.
#[verifier::external_type_specification]
#[verifier::external_body]
pub struct ExFromUtf8Error(std::string::FromUtf8Error);

/// `String::from_utf8` succeeds on exactly the valid UTF-8 sequences and gives the text that they
/// encode.
pub assume_specification[ String::from_utf8 ](vec: Vec<u8>) -> (r: Result<
    String,
    std::string::FromUtf8Error,
>)
    ensures
        r is Ok <==> vstd::utf8::valid_utf8(vec@),
        r matches Ok(s) ==> s@ == vstd::utf8::decode_utf8(vec@),
;

/// The bytes of an unconnected ping.
pub open spec fn ping_bytes(timestamp: nat, client_guid: nat) -> Seq<u8> {
    seq![ID_UNCONNECTED_PING] + bytes::be_bytes(timestamp, 8) + RAKNET_MAGIC@ + bytes::be_bytes(
        client_guid,
        8,
    )
}

/// The bytes of an unconnected pong whose identifier has the given bytes.
pub open spec fn pong_bytes(timestamp: nat, server_guid: nat, identifier: Seq<u8>) -> Seq<u8> {
    seq![ID_UNCONNECTED_PONG] + bytes::be_bytes(timestamp, 8) + bytes::be_bytes(server_guid, 8)
        + RAKNET_MAGIC@ + bytes::be_bytes(identifier.len(), 2) + identifier
}

/// Timestamp and client GUID of an unconnected ping.
pub open spec fn ping_of(data: Seq<u8>) -> Result<(nat, nat), PacketErrorModel> {
    if data.len() < 33 {
        Err(PacketErrorModel::PacketTooShort(data.len()))
    } else if data[0] != ID_UNCONNECTED_PING {
        Err(
            PacketErrorModel::UnexpectedPacketId { expected: ID_UNCONNECTED_PING, got: data[0] },
        )
    } else if data.subrange(9, 25) != RAKNET_MAGIC@ {
        Err(PacketErrorModel::InvalidMagic)
    } else {
        Ok((bytes::be_value(data.subrange(1, 9)), bytes::be_value(data.subrange(25, 33))))
    }
}

/// Timestamp, server GUID and identifier of an unconnected pong.
pub open spec fn pong_of(data: Seq<u8>) -> Result<(nat, nat, Seq<char>), PacketErrorModel> {
    let len = bytes::be_value(data.subrange(33, 35));
    let message = data.subrange(35, 35 + len as int);
    if data.len() < 35 {
        Err(PacketErrorModel::PacketTooShort(data.len()))
    } else if data[0] != ID_UNCONNECTED_PONG {
        Err(
            PacketErrorModel::UnexpectedPacketId { expected: ID_UNCONNECTED_PONG, got: data[0] },
        )
    } else if data.subrange(17, 33) != RAKNET_MAGIC@ {
        Err(PacketErrorModel::InvalidMagic)
    } else if data.len() < 35 + len {
        Err(PacketErrorModel::Io(IoErrorModel::UnexpectedEof("failed to fill whole buffer"@)))
    } else if !vstd::utf8::valid_utf8(message) {
        Err(PacketErrorModel::Utf8(message))
    } else {
        Ok(
            (
                bytes::be_value(data.subrange(1, 9)),
                bytes::be_value(data.subrange(9, 17)),
                vstd::utf8::decode_utf8(message),
            ),
        )
    }
}

/// Whether the magic stands at the given place.
fn has_magic(data: &[u8], at: usize) -> (r: bool)
    requires
        at + 16 <= data@.len(),
    ensures
        r == (data@.subrange(at as int, at + 16) == RAKNET_MAGIC@),
{
    let ghost part = data@.subrange(at as int, at + 16);
    let magic = RAKNET_MAGIC;
    for i in 0..16usize
        invariant
            at + 16 <= data.len(),
            magic@ == RAKNET_MAGIC@,
            part == data@.subrange(at as int, at + 16),
            forall|k: int| 0 <= k < i ==> #[trigger] part[k] == magic@[k],
    {
        if data[at + i] != magic[i] {
            assert(part[i as int] != magic@[i as int]);
            return false;
        }
    }
    assert(part == magic@);
    true
}

/// Builds an unconnected ping (0x01).
pub fn build_unconnected_ping(timestamp: u64, client_guid: u64) -> (r: Result<Vec<u8>, PacketError>)
    ensures
        r matches Ok(v) && v@ == ping_bytes(timestamp as nat, client_guid as nat),
{
    let mut buf: Vec<u8> = Vec::with_capacity(33);
    buf.push(ID_UNCONNECTED_PING);
    assert(buf@ == seq![ID_UNCONNECTED_PING]);
    push_all(&mut buf, be_u64(timestamp).as_slice());
    push_all(&mut buf, RAKNET_MAGIC.as_slice());
    push_all(&mut buf, be_u64(client_guid).as_slice());
    Ok(buf)
}

/// Reads an unconnected ping (0x01): timestamp and client GUID.
pub fn parse_unconnected_ping(data: &[u8]) -> (r: Result<(u64, u64), PacketError>)
    ensures
        match r {
            Ok(p) => ping_of(data@) == Ok::<(nat, nat), PacketErrorModel>(
                (p.0 as nat, p.1 as nat),
            ),
            Err(e) => ping_of(data@) == Err::<(nat, nat), PacketErrorModel>(e@),
        },
{
    if data.len() < 33 {
        return Err(PacketError::PacketTooShort(data.len()));
    }
    let id = data[0];
    if id != ID_UNCONNECTED_PING {
        return Err(PacketError::UnexpectedPacketId { expected: ID_UNCONNECTED_PING, got: id });
    }
    let first = vstd::slice::slice_subrange(data, 1, 9);
    assert(first@.take(8) == first@);
    let timestamp = read_be_u64(first);
    if !has_magic(data, 9) {
        return Err(PacketError::InvalidMagic);
    }
    let second = vstd::slice::slice_subrange(data, 25, 33);
    assert(second@.take(8) == second@);
    let client_guid = read_be_u64(second);
    Ok((timestamp, client_guid))
}

/// Builds an unconnected pong (0x1C) with the given Bedrock identifier string.
pub fn build_unconnected_pong(
    timestamp: u64,
    server_guid: u64,
    identifier_str: &str,
) -> (r: Result<Vec<u8>, PacketError>)
    ensures
        match r {
            Ok(v) => {
                &&& vstd::utf8::encode_utf8(identifier_str@).len() <= u16::MAX
                &&& v@ == pong_bytes(
                    timestamp as nat,
                    server_guid as nat,
                    vstd::utf8::encode_utf8(identifier_str@),
                )
            },
            Err(e) => {
                &&& vstd::utf8::encode_utf8(identifier_str@).len() > u16::MAX
                &&& e@ == PacketErrorModel::IdentifierTooLong(vstd::utf8::encode_utf8(identifier_str@).len())
            },
        },
{
    let msg_bytes = identifier_str.as_bytes();
    if msg_bytes.len() > u16::MAX as usize {
        return Err(PacketError::IdentifierTooLong(msg_bytes.len()));
    }
    let mut buf: Vec<u8> = Vec::with_capacity(35 + msg_bytes.len());
    buf.push(ID_UNCONNECTED_PONG);
    assert(buf@ == seq![ID_UNCONNECTED_PONG]);
    push_all(&mut buf, be_u64(timestamp).as_slice());
    push_all(&mut buf, be_u64(server_guid).as_slice());
    push_all(&mut buf, RAKNET_MAGIC.as_slice());
    push_all(&mut buf, be_u16(msg_bytes.len() as u16).as_slice());
    push_all(&mut buf, msg_bytes);
    Ok(buf)
}

/// Reads an unconnected pong (0x1C): timestamp, server GUID and identifier string.
pub fn parse_unconnected_pong(data: &[u8]) -> (r: Result<(u64, u64, String), PacketError>)
    ensures
        match r {
            Ok(p) => pong_of(data@) == Ok::<(nat, nat, Seq<char>), PacketErrorModel>(
                (p.0 as nat, p.1 as nat, p.2@),
            ),
            Err(e) => pong_of(data@) == Err::<(nat, nat, Seq<char>), PacketErrorModel>(e@),
        },
{
    if data.len() < 35 {
        return Err(PacketError::PacketTooShort(data.len()));
    }
    let id = data[0];
    if id != ID_UNCONNECTED_PONG {
        return Err(PacketError::UnexpectedPacketId { expected: ID_UNCONNECTED_PONG, got: id });
    }
    let first = vstd::slice::slice_subrange(data, 1, 9);
    assert(first@.take(8) == first@);
    let timestamp = read_be_u64(first);
    let second = vstd::slice::slice_subrange(data, 9, 17);
    assert(second@.take(8) == second@);
    let server_guid = read_be_u64(second);
    if !has_magic(data, 17) {
        return Err(PacketError::InvalidMagic);
    }
    let third = vstd::slice::slice_subrange(data, 33, 35);
    assert(third@.take(2) == third@);
    let len = read_be_u16(third) as usize;
    if data.len() - 35 < len {
        return Err(PacketError::Io(IoError::UnexpectedEof("failed to fill whole buffer")));
    }
    let message = vstd::slice::slice_subrange(data, 35, 35 + len);
    match String::from_utf8(vstd::slice::slice_to_vec(message)) {
        Ok(text) => Ok((timestamp, server_guid, text)),
        Err(_) => Err(PacketError::Utf8(vstd::slice::slice_to_vec(message))),
    }
}

/// Whether the first byte is that of an unconnected ping.
pub fn is_unconnected_ping(data: &[u8]) -> (r: bool)
    ensures
        r == (data@.len() > 0 && data@[0] == ID_UNCONNECTED_PING),
{
    data.len() > 0 && data[0] == ID_UNCONNECTED_PING
}

/// Whether the first byte is that of an unconnected pong.
pub fn is_unconnected_pong(data: &[u8]) -> (r: bool)
    ensures
        r == (data@.len() > 0 && data@[0] == ID_UNCONNECTED_PONG),
{
    data.len() > 0 && data[0] == ID_UNCONNECTED_PONG
}

/// Reading a ping inverts building it, and bytes behind the ping do not matter.
pub proof fn parse_inverts_build_ping(timestamp: u64, client_guid: u64, tail: Seq<u8>)
    ensures
        ping_of(ping_bytes(timestamp as nat, client_guid as nat) + tail) == Ok::<
            (nat, nat),
            PacketErrorModel,
        >((timestamp as nat, client_guid as nat)),
{
    let data = ping_bytes(timestamp as nat, client_guid as nat) + tail;
    bytes::byte_ranges();
    bytes::be_value_inverts_be_bytes(timestamp as nat, 8);
    bytes::be_value_inverts_be_bytes(client_guid as nat, 8);
    assert(data.subrange(1, 9) == bytes::be_bytes(timestamp as nat, 8));
    assert(data.subrange(9, 25) == RAKNET_MAGIC@);
    assert(data.subrange(25, 33) == bytes::be_bytes(client_guid as nat, 8));
}

/// Reading a pong inverts building it for every identifier that the length field can hold, and
/// bytes behind the pong do not matter.
pub proof fn parse_inverts_build_pong(
    timestamp: u64,
    server_guid: u64,
    identifier: Seq<char>,
    tail: Seq<u8>,
)
    requires
        vstd::utf8::encode_utf8(identifier).len() <= u16::MAX,
    ensures
        pong_of(
            pong_bytes(timestamp as nat, server_guid as nat, vstd::utf8::encode_utf8(identifier))
                + tail,
        ) == Ok::<(nat, nat, Seq<char>), PacketErrorModel>(
            (timestamp as nat, server_guid as nat, identifier),
        ),
{
    let text = vstd::utf8::encode_utf8(identifier);
    let data = pong_bytes(timestamp as nat, server_guid as nat, text) + tail;
    bytes::byte_ranges();
    bytes::be_value_inverts_be_bytes(timestamp as nat, 8);
    bytes::be_value_inverts_be_bytes(server_guid as nat, 8);
    bytes::be_value_inverts_be_bytes(text.len(), 2);
    vstd::utf8::encode_utf8_valid_utf8(identifier);
    vstd::utf8::encode_utf8_decode_utf8(identifier);
    assert(data.subrange(1, 9) == bytes::be_bytes(timestamp as nat, 8));
    assert(data.subrange(9, 17) == bytes::be_bytes(server_guid as nat, 8));
    assert(data.subrange(17, 33) == RAKNET_MAGIC@);
    assert(data.subrange(33, 35) == bytes::be_bytes(text.len(), 2));
    assert(data.subrange(35, 35 + text.len() as int) == text);
}

/// No packet is both a ping and a pong.
pub proof fn ping_and_pong_are_told_apart(data: Seq<u8>)
    ensures
        !(ping_of(data) is Ok && pong_of(data) is Ok),
{
}

/// A ping is 33 bytes: its id, the time, the magic, the client's GUID; numbers have their most
/// significant byte first.
pub proof fn ping_has_its_layout(timestamp: u64, client_guid: u64)
    ensures
        ({
            let p = ping_bytes(timestamp as nat, client_guid as nat);
            &&& p.len() == 33
            &&& p[0] == 0x01
            &&& timestamp == p[1] * 0x100_0000_0000_0000 + p[2] * 0x1_0000_0000_0000 + p[3]
                * 0x100_0000_0000 + p[4] * 0x1_0000_0000 + p[5] * 0x100_0000 + p[6] * 0x1_0000
                + p[7] * 0x100 + p[8]
            &&& is_magic(p.subrange(9, 25))
            &&& client_guid == p[25] * 0x100_0000_0000_0000 + p[26] * 0x1_0000_0000_0000 + p[27]
                * 0x100_0000_0000 + p[28] * 0x1_0000_0000 + p[29] * 0x100_0000 + p[30] * 0x1_0000
                + p[31] * 0x100 + p[32]
        }),
{
    let p = ping_bytes(timestamp as nat, client_guid as nat);
    let t = bytes::be_bytes(timestamp as nat, 8);
    let g = bytes::be_bytes(client_guid as nat, 8);
    bytes::written_bytes_weigh_up_to_the_number(timestamp as nat);
    bytes::written_bytes_weigh_up_to_the_number(client_guid as nat);
    assert(p.subrange(1, 9) =~= t);
    assert(p.subrange(25, 33) =~= g);
    assert(p.subrange(9, 25) =~= RAKNET_MAGIC@);
    assert forall|i: int| 0 <= i < 8 implies t[i] == p[1 + i] && g[i] == p[25 + i] by {
        assert(p.subrange(1, 9)[i] == p[1 + i]);
        assert(p.subrange(25, 33)[i] == p[25 + i]);
    }
}

/// The magic: sixteen bytes that are the same in every discovery packet.
pub open spec fn is_magic(s: Seq<u8>) -> bool {
    &&& s.len() == 16
    &&& s[0] == 0x00 && s[1] == 0xff && s[2] == 0xff && s[3] == 0x00
    &&& s[4] == 0xfe && s[5] == 0xfe && s[6] == 0xfe && s[7] == 0xfe
    &&& s[8] == 0xfd && s[9] == 0xfd && s[10] == 0xfd && s[11] == 0xfd
    &&& s[12] == 0x12 && s[13] == 0x34 && s[14] == 0x56 && s[15] == 0x78
}

/// A pong is 35 bytes and the identifier: its id, the time, the server's GUID, the magic, the
/// identifier's length in bytes, and the identifier as it is.
pub proof fn pong_has_its_layout(timestamp: u64, server_guid: u64, identifier: Seq<u8>)
    requires
        identifier.len() <= 0xffff,
    ensures
        ({
            let p = pong_bytes(timestamp as nat, server_guid as nat, identifier);
            &&& p.len() == 35 + identifier.len()
            &&& p[0] == 0x1c
            &&& timestamp == p[1] * 0x100_0000_0000_0000 + p[2] * 0x1_0000_0000_0000 + p[3]
                * 0x100_0000_0000 + p[4] * 0x1_0000_0000 + p[5] * 0x100_0000 + p[6] * 0x1_0000
                + p[7] * 0x100 + p[8]
            &&& server_guid == p[9] * 0x100_0000_0000_0000 + p[10] * 0x1_0000_0000_0000 + p[11]
                * 0x100_0000_0000 + p[12] * 0x1_0000_0000 + p[13] * 0x100_0000 + p[14] * 0x1_0000
                + p[15] * 0x100 + p[16]
            &&& is_magic(p.subrange(17, 33))
            &&& identifier.len() == p[33] * 0x100 + p[34]
            &&& p.subrange(35, p.len() as int) == identifier
        }),
{
    let p = pong_bytes(timestamp as nat, server_guid as nat, identifier);
    let t = bytes::be_bytes(timestamp as nat, 8);
    let g = bytes::be_bytes(server_guid as nat, 8);
    let n = bytes::be_bytes(identifier.len(), 2);
    bytes::written_bytes_weigh_up_to_the_number(timestamp as nat);
    bytes::written_bytes_weigh_up_to_the_number(server_guid as nat);
    bytes::written_bytes_weigh_up_to_the_number(identifier.len());
    assert(p.subrange(1, 9) =~= t);
    assert(p.subrange(9, 17) =~= g);
    assert(p.subrange(17, 33) =~= RAKNET_MAGIC@);
    assert(p.subrange(33, 35) =~= n);
    assert(p.subrange(35, p.len() as int) =~= identifier);
    assert forall|i: int| 0 <= i < 8 implies t[i] == p[1 + i] && g[i] == p[9 + i] by {
        assert(p.subrange(1, 9)[i] == p[1 + i]);
        assert(p.subrange(9, 17)[i] == p[9 + i]);
    }
    assert(n[0] == p[33] && n[1] == p[34]) by {
        assert(p.subrange(33, 35)[0] == p[33] && p.subrange(33, 35)[1] == p[34]);
    }
}

/// What is read as a ping: bytes that begin with the 33 bytes of one; of several faults the first
/// is told, too few bytes before a wrong id before a wrong magic.
pub proof fn ping_is_read_from_its_layout(data: Seq<u8>)
    ensures
        data.len() < 33 ==> ping_of(data) == Err::<(nat, nat), PacketErrorModel>(
            PacketErrorModel::PacketTooShort(data.len()),
        ),
        data.len() >= 33 && data[0] != 0x01 ==> ping_of(data) == Err::<
            (nat, nat),
            PacketErrorModel,
        >(PacketErrorModel::UnexpectedPacketId { expected: 0x01, got: data[0] }),
        data.len() >= 33 && data[0] == 0x01 && !is_magic(data.subrange(9, 25)) ==> ping_of(data)
            == Err::<(nat, nat), PacketErrorModel>(PacketErrorModel::InvalidMagic),
        data.len() >= 33 && data[0] == 0x01 && is_magic(data.subrange(9, 25)) ==> {
            &&& ping_of(data) matches Ok(p)
            &&& p.0 == data[1] * 0x100_0000_0000_0000 + data[2] * 0x1_0000_0000_0000 + data[3]
                * 0x100_0000_0000 + data[4] * 0x1_0000_0000 + data[5] * 0x100_0000 + data[6]
                * 0x1_0000 + data[7] * 0x100 + data[8]
            &&& p.1 == data[25] * 0x100_0000_0000_0000 + data[26] * 0x1_0000_0000_0000 + data[27]
                * 0x100_0000_0000 + data[28] * 0x1_0000_0000 + data[29] * 0x100_0000 + data[30]
                * 0x1_0000 + data[31] * 0x100 + data[32]
        },
{
    if data.len() >= 33 {
        magic_is_the_constant(data.subrange(9, 25));
        bytes::network_order_weighs_early_bytes_most(data.subrange(1, 9));
        bytes::network_order_weighs_early_bytes_most(data.subrange(25, 33));
    }
}

proof fn magic_is_the_constant(s: Seq<u8>)
    ensures
        is_magic(s) <==> s == RAKNET_MAGIC@,
{
    if is_magic(s) {
        assert(s =~= RAKNET_MAGIC@);
    }
}

/// What is read as a pong: bytes that begin with the 35 bytes of one and hold all of the text that
/// they announce, in UTF-8; of several faults the first is told.
pub proof fn pong_is_read_from_its_layout(data: Seq<u8>)
    ensures
        data.len() < 35 ==> pong_of(data) == Err::<(nat, nat, Seq<char>), PacketErrorModel>(
            PacketErrorModel::PacketTooShort(data.len()),
        ),
        data.len() >= 35 && data[0] != 0x1c ==> pong_of(data) == Err::<
            (nat, nat, Seq<char>),
            PacketErrorModel,
        >(PacketErrorModel::UnexpectedPacketId { expected: 0x1c, got: data[0] }),
        data.len() >= 35 && data[0] == 0x1c && !is_magic(data.subrange(17, 33)) ==> pong_of(data)
            == Err::<(nat, nat, Seq<char>), PacketErrorModel>(PacketErrorModel::InvalidMagic),
        data.len() >= 35 && data[0] == 0x1c && is_magic(data.subrange(17, 33)) ==> {
            let len = data[33] * 0x100 + data[34];
            let message = data.subrange(35, 35 + len);
            if data.len() < 35 + len {
                pong_of(data) == Err::<(nat, nat, Seq<char>), PacketErrorModel>(
                    PacketErrorModel::Io(
                        IoErrorModel::UnexpectedEof("failed to fill whole buffer"@),
                    ),
                )
            } else if !vstd::utf8::valid_utf8(message) {
                pong_of(data) == Err::<(nat, nat, Seq<char>), PacketErrorModel>(
                    PacketErrorModel::Utf8(message),
                )
            } else {
                &&& pong_of(data) matches Ok(p)
                &&& p.0 == data[1] * 0x100_0000_0000_0000 + data[2] * 0x1_0000_0000_0000 + data[3]
                    * 0x100_0000_0000 + data[4] * 0x1_0000_0000 + data[5] * 0x100_0000 + data[6]
                    * 0x1_0000 + data[7] * 0x100 + data[8]
                &&& p.1 == data[9] * 0x100_0000_0000_0000 + data[10] * 0x1_0000_0000_0000
                    + data[11] * 0x100_0000_0000 + data[12] * 0x1_0000_0000 + data[13]
                    * 0x100_0000 + data[14] * 0x1_0000 + data[15] * 0x100 + data[16]
                &&& p.2 == vstd::utf8::decode_utf8(message)
            }
        },
{
    if data.len() >= 35 {
        magic_is_the_constant(data.subrange(17, 33));
        bytes::network_order_weighs_early_bytes_most(data.subrange(1, 9));
        bytes::network_order_weighs_early_bytes_most(data.subrange(9, 17));
        bytes::network_order_weighs_early_bytes_most(data.subrange(33, 35));
    }
}

/// A byte is told in hexadecimal as `0x` and two digits, the higher one first.
pub proof fn byte_is_told_in_two_digits(b: u8)
    ensures
        hex_byte(b).len() == 4,
        hex_byte(b)[0] == '0',
        hex_byte(b)[1] == 'x',
        text::hex_value(hex_byte(b).skip(2)) == b,
{
    let digits = hex_byte(b).skip(2);
    assert(digits.drop_last().drop_last().len() == 0);
    reveal_with_fuel(text::hex_value, 3);
}

/// What an error says: what is wrong, in fixed words, with the numbers, bytes or words that tell
/// more.
pub proof fn error_says_what_is_wrong(e: PacketError)
    ensures
        match e {
            PacketError::PacketTooShort(n) => e@.message() == "Packet is too short: "@
                + text::decimal(n as nat) + " bytes"@,
            PacketError::UnexpectedPacketId { expected, got } => e@.message()
                == "Unexpected packet ID: expected "@ + hex_byte(expected) + ", got "@ + hex_byte(
                got,
            ),
            PacketError::InvalidMagic => e@.message() == "Magic bytes mismatch"@,
            PacketError::Utf8(bytes) => !vstd::utf8::valid_utf8(bytes@) ==> e@.message()
                == "Payload is not valid UTF-8: "@ + utf8_complaint(bytes@),
            PacketError::IdentifierTooLong(n) => e@.message()
                == "Identifier is too long for the RakNet length field: "@ + text::decimal(
                n as nat,
            ) + " bytes"@,
            PacketError::Io(inner) => e@.message() == "IO error: "@ + inner@.message(),
        },
{
}

} // verus!
