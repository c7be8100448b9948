//! The wire protocol between nodes and the rendezvous server.
//!
//! A message is a length of four bytes, least significant first, and a payload of that length.

use vstd::prelude::*;

use crate::bytes;
use crate::bytes::push_all;
use crate::io_error::{IoError, IoErrorModel};
use crate::node::discovery;
use crate::node::discovery::{AdvertisedModel, AdvertisedServer};
use crate::node::error::{CoreError, CoreErrorModel};

verus! {

pub const MAX_FRAME_BYTES: usize = 524_288;

/// Messages a client sends to the rendezvous server.
#[derive(Debug)]
pub enum ClientMessage {
    /// The client hosts a world, which the server lists from then on.
    RegisterHost(AdvertisedServer),
    /// The client has stopped hosting.
    UnregisterHost { sender_id: u64 },
    /// The client asks for the current host list.
    ListHosts,
    /// The player chose a server; the host is told.
    ConnectRequest { target_sender_id: u64, joiner_network_id: u64 },
    /// A signaling line for the other side of a connection.
    Signal { target_sender_id: u64, connection_id: u64, joiner_network_id: u64, data: String },
    /// Keeps an idle connection alive and tells a dead one.
    Ping,
    /// New metadata of a host that this client has registered.
    UpdateHost(AdvertisedServer),
}

/// Messages the rendezvous server sends back to clients.
#[derive(Debug)]
pub enum ServerMessage {
    /// The registration is acknowledged.
    Registered { sender_id: u64 },
    /// The current host list.
    HostList(Vec<AdvertisedServer>),
    /// A joiner wants in.
    IncomingJoin { joiner_network_id: u64, session_id: u64 },
    /// The join was accepted.
    JoinAccepted { session_id: u64 },
    /// A signaling line from the other side of a connection.
    Signal { connection_id: u64, joiner_network_id: u64, data: String },
    /// The answer to a ping.
    Pong,
    Error(String),
}

/// A [`ClientMessage`] as mathematical values.
pub enum ClientMessageModel {
    RegisterHost(AdvertisedModel),
    UnregisterHost { sender_id: u64 },
    ListHosts,
    ConnectRequest { target_sender_id: u64, joiner_network_id: u64 },
    Signal { target_sender_id: u64, connection_id: u64, joiner_network_id: u64, data: Seq<char> },
    Ping,
    UpdateHost(AdvertisedModel),
}

impl View for ClientMessage {
    type V = ClientMessageModel;

    open spec fn view(&self) -> ClientMessageModel {
        match *self {
            ClientMessage::RegisterHost(s) => ClientMessageModel::RegisterHost(s@),
            ClientMessage::UnregisterHost { sender_id } => ClientMessageModel::UnregisterHost {
                sender_id,
            },
            ClientMessage::ListHosts => ClientMessageModel::ListHosts,
            ClientMessage::ConnectRequest { target_sender_id, joiner_network_id } => {
                ClientMessageModel::ConnectRequest { target_sender_id, joiner_network_id }
            },
            ClientMessage::Signal { target_sender_id, connection_id, joiner_network_id, data } => {
                ClientMessageModel::Signal {
                    target_sender_id,
                    connection_id,
                    joiner_network_id,
                    data: data@,
                }
            },
            ClientMessage::Ping => ClientMessageModel::Ping,
            ClientMessage::UpdateHost(s) => ClientMessageModel::UpdateHost(s@),
        }
    }
}

impl Clone for ClientMessage {
    fn clone(&self) -> (r: Self)
        ensures
            r@ == self@,
    {
        match self {
            ClientMessage::RegisterHost(s) => ClientMessage::RegisterHost(s.clone()),
            ClientMessage::UnregisterHost { sender_id } => ClientMessage::UnregisterHost {
                sender_id: *sender_id,
            },
            ClientMessage::ListHosts => ClientMessage::ListHosts,
            ClientMessage::ConnectRequest { target_sender_id, joiner_network_id } => {
                ClientMessage::ConnectRequest {
                    target_sender_id: *target_sender_id,
                    joiner_network_id: *joiner_network_id,
                }
            },
            ClientMessage::Signal { target_sender_id, connection_id, joiner_network_id, data } => {
                ClientMessage::Signal {
                    target_sender_id: *target_sender_id,
                    connection_id: *connection_id,
                    joiner_network_id: *joiner_network_id,
                    data: data.clone(),
                }
            },
            ClientMessage::Ping => ClientMessage::Ping,
            ClientMessage::UpdateHost(s) => ClientMessage::UpdateHost(s.clone()),
        }
    }
}

/// A [`ServerMessage`] as mathematical values.
pub enum ServerMessageModel {
    Registered { sender_id: u64 },
    HostList(Seq<AdvertisedModel>),
    IncomingJoin { joiner_network_id: u64, session_id: u64 },
    JoinAccepted { session_id: u64 },
    Signal { connection_id: u64, joiner_network_id: u64, data: Seq<char> },
    Pong,
    Error(Seq<char>),
}

impl View for ServerMessage {
    type V = ServerMessageModel;

    open spec fn view(&self) -> ServerMessageModel {
        match *self {
            ServerMessage::Registered { sender_id } => ServerMessageModel::Registered {
                sender_id,
            },
            ServerMessage::HostList(list) => ServerMessageModel::HostList(
                discovery::advertised_views(list@),
            ),
            ServerMessage::IncomingJoin { joiner_network_id, session_id } => {
                ServerMessageModel::IncomingJoin { joiner_network_id, session_id }
            },
            ServerMessage::JoinAccepted { session_id } => ServerMessageModel::JoinAccepted {
                session_id,
            },
            ServerMessage::Signal { connection_id, joiner_network_id, data } => {
                ServerMessageModel::Signal { connection_id, joiner_network_id, data: data@ }
            },
            ServerMessage::Pong => ServerMessageModel::Pong,
            ServerMessage::Error(words) => ServerMessageModel::Error(words@),
        }
    }
}

impl Clone for ServerMessage {
    fn clone(&self) -> (r: Self)
        ensures
            r@ == self@,
    {
        match self {
            ServerMessage::Registered { sender_id } => ServerMessage::Registered {
                sender_id: *sender_id,
            },
            ServerMessage::HostList(list) => {
                let copy = list.clone();
                assert(discovery::advertised_views(copy@) =~= discovery::advertised_views(list@));
                ServerMessage::HostList(copy)
            },
            ServerMessage::IncomingJoin { joiner_network_id, session_id } => {
                ServerMessage::IncomingJoin {
                    joiner_network_id: *joiner_network_id,
                    session_id: *session_id,
                }
            },
            ServerMessage::JoinAccepted { session_id } => ServerMessage::JoinAccepted {
                session_id: *session_id,
            },
            ServerMessage::Signal { connection_id, joiner_network_id, data } => {
                ServerMessage::Signal {
                    connection_id: *connection_id,
                    joiner_network_id: *joiner_network_id,
                    data: data.clone(),
                }
            },
            ServerMessage::Pong => ServerMessage::Pong,
            ServerMessage::Error(words) => ServerMessage::Error(words.clone()),
        }
    }
}

/// A payload with its length in front, of which the field holds 32 bits.
pub open spec fn frame_of(payload: Seq<u8>) -> Seq<u8> {
    bytes::le_bytes(payload.len() % 0x1_0000_0000, 4) + payload
}

/// What a stream that holds these bytes and then ends gives its reader.
pub enum FrameModel {
    /// The stream ends before a length.
    End,
    /// The length is more than a message may have.
    TooLarge(nat),
    /// The stream ends inside a payload.
    Cut,
    /// A payload, and what follows it.
    Payload(Seq<u8>, Seq<u8>),
}

/// Reading one frame.
pub open spec fn first_frame(stream: Seq<u8>) -> FrameModel {
    let len = bytes::le_value(stream.take(4));
    if stream.len() < 4 {
        FrameModel::End
    } else if len > MAX_FRAME_BYTES {
        FrameModel::TooLarge(len)
    } else if stream.len() < 4 + len {
        FrameModel::Cut
    } else {
        FrameModel::Payload(stream.subrange(4, 4 + len as int), stream.skip(4 + len as int))
    }
}

/// The payload's frame.
pub fn write_message(payload: &[u8]) -> (r: Vec<u8>)
    ensures
        r@ == frame_of(payload@),
{
    let len: u64 = payload.len() as u64 % 0x1_0000_0000;
    let a: u64 = len / 256;
    let b: u64 = a / 256;
    let c: u64 = b / 256;
    let prefix: [u8; 4] = [
        (len % 256) as u8,
        (a % 256) as u8,
        (b % 256) as u8,
        (c % 256) as u8,
    ];
    proof {
        reveal_with_fuel(bytes::be_bytes, 5);
        assert(prefix@ =~= bytes::le_bytes(len as nat, 4));
        assert(Seq::<u8>::empty() + prefix@ == prefix@);
    }
    let mut frame: Vec<u8> = Vec::new();
    push_all(&mut frame, prefix.as_slice());
    push_all(&mut frame, payload);
    frame
}

/// The payload length that a length field announces, unless it is more than a message may have.
pub fn frame_len(prefix: [u8; 4]) -> (r: Result<usize, CoreError>)
    ensures
        match r {
            Ok(n) => n as nat == bytes::le_value(prefix@) && n <= MAX_FRAME_BYTES,
            Err(e) => bytes::le_value(prefix@) > MAX_FRAME_BYTES && (
            e matches CoreError::FrameTooLarge(n) && n as nat == bytes::le_value(prefix@)),
        },
{
    let a: u32 = prefix[3] as u32;
    let b: u32 = a * 256 + prefix[2] as u32;
    let c: u32 = b * 256 + prefix[1] as u32;
    let len: u32 = c * 256 + prefix[0] as u32;
    proof {
        let s = prefix@.reverse();
        reveal_with_fuel(bytes::be_value, 5);
        assert(s.drop_last().drop_last().drop_last().drop_last().len() == 0);
        assert(len as nat == bytes::le_value(prefix@));
    }
    let n = len as usize;
    if n > MAX_FRAME_BYTES {
        return Err(CoreError::FrameTooLarge(n));
    }
    Ok(n)
}

/// Reads one payload from a stream that holds these bytes and then ends; gives it together with
/// what follows it, or nothing at a clean end.
pub fn read_message(stream: &[u8]) -> (r: Result<Option<(&[u8], &[u8])>, CoreError>)
    ensures
        match r {
            Ok(None) => first_frame(stream@) is End,
            Ok(Some((payload, rest))) => first_frame(stream@) == FrameModel::Payload(
                payload@,
                rest@,
            ),
            Err(CoreError::FrameTooLarge(n)) => first_frame(stream@) == FrameModel::TooLarge(
                n as nat,
            ),
            Err(e) => first_frame(stream@) is Cut && e@ == CoreErrorModel::Io(
                IoErrorModel::UnexpectedEof("early eof"@),
            ),
        },
{
    if stream.len() < 4 {
        return Ok(None);
    }
    let prefix: [u8; 4] = [stream[0], stream[1], stream[2], stream[3]];
    assert(prefix@ =~= stream@.take(4));
    match frame_len(prefix) {
        Ok(len) => {
            if stream.len() - 4 < len {
                return Err(CoreError::Io(IoError::UnexpectedEof("early eof")));
            }
            let payload = vstd::slice::slice_subrange(stream, 4, 4 + len);
            let rest = vstd::slice::slice_subrange(stream, 4 + len, stream.len());
            assert(rest@ == stream@.skip(4 + len as int));
            Ok(Some((payload, rest)))
        },
        Err(e) => Err(e),
    }
}

proof fn le_reads_back(n: nat)
    requires
        n < 0x1_0000_0000,
    ensures
        bytes::le_bytes(n, 4).len() == 4,
        bytes::le_value(bytes::le_bytes(n, 4)) == n,
{
    bytes::byte_ranges();
    bytes::be_value_inverts_be_bytes(n, 4);
    assert(bytes::be_bytes(n, 4).reverse().reverse() =~= bytes::be_bytes(n, 4));
}

/// A reader gets back what a writer wrote: the payload of the frame, and then whatever follows it,
/// for every payload that a message may have.
pub proof fn read_inverts_write(payload: Seq<u8>, rest: Seq<u8>)
    requires
        payload.len() <= MAX_FRAME_BYTES,
    ensures
        first_frame(frame_of(payload) + rest) == FrameModel::Payload(payload, rest),
{
    let stream = frame_of(payload) + rest;
    le_reads_back(payload.len());
    assert(stream.take(4) =~= bytes::le_bytes(payload.len(), 4));
    assert(stream.subrange(4, 4 + payload.len() as int) =~= payload);
    assert(stream.skip(4 + payload.len() as int) =~= rest);
}

/// A larger payload is refused by the reader, which tells its size as long as the length field
/// can hold it.
pub proof fn oversized_frame_is_refused(payload: Seq<u8>, rest: Seq<u8>)
    requires
        MAX_FRAME_BYTES < payload.len() < 0x1_0000_0000,
    ensures
        first_frame(frame_of(payload) + rest) == FrameModel::TooLarge(payload.len()),
{
    let stream = frame_of(payload) + rest;
    le_reads_back(payload.len());
    assert(stream.take(4) =~= bytes::le_bytes(payload.len(), 4));
}

/// The frames of some payloads, one after the other.
pub open spec fn frames_of(payloads: Seq<Seq<u8>>) -> Seq<u8>
    decreases payloads.len(),
{
    if payloads.len() == 0 {
        Seq::empty()
    } else {
        frame_of(payloads[0]) + frames_of(payloads.skip(1))
    }
}

/// The payloads that a reader takes from a stream until it ends or cannot be read on.
pub open spec fn payloads_in(stream: Seq<u8>) -> Seq<Seq<u8>>
    decreases stream.len(),
{
    match first_frame(stream) {
        FrameModel::Payload(payload, rest) => if rest.len() < stream.len() {
            seq![payload] + payloads_in(rest)
        } else {
            Seq::empty()
        },
        _ => Seq::empty(),
    }
}

/// All messages of a connection arrive, in the order in which they were written.
pub proof fn stream_of_frames_reads_back(payloads: Seq<Seq<u8>>)
    requires
        forall|i: int|
            0 <= i < payloads.len() ==> (#[trigger] payloads[i]).len() <= MAX_FRAME_BYTES,
    ensures
        payloads_in(frames_of(payloads)) == payloads,
    decreases payloads.len(),
{
    if payloads.len() > 0 {
        let rest = payloads.skip(1);
        assert forall|i: int| 0 <= i < rest.len() implies (#[trigger] rest[i]).len()
            <= MAX_FRAME_BYTES by {
            assert(rest[i] == payloads[i + 1]);
        }
        read_inverts_write(payloads[0], frames_of(rest));
        le_reads_back(payloads[0].len());
        stream_of_frames_reads_back(rest);
        assert(seq![payloads[0]] + rest =~= payloads);
    } else {
        assert(payloads_in(frames_of(payloads)) =~= payloads);
    }
}

/// The bytes of a frame: the payload's length in four bytes, the least significant first, and the
/// payload as it is.
pub proof fn frame_has_its_layout(payload: Seq<u8>)
    requires
        payload.len() < 0x1_0000_0000,
    ensures
        ({
            let f = frame_of(payload);
            &&& f.len() == 4 + payload.len()
            &&& payload.len() == f[0] + f[1] * 0x100 + f[2] * 0x1_0000 + f[3] * 0x100_0000
            &&& f.subrange(4, f.len() as int) == payload
        }),
{
    let f = frame_of(payload);
    let prefix = bytes::le_bytes(payload.len(), 4);
    le_reads_back(payload.len());
    bytes::little_order_weighs_late_bytes_most(prefix, payload.len());
    assert(f[0] == prefix[0] && f[1] == prefix[1] && f[2] == prefix[2] && f[3] == prefix[3]);
    assert(f.subrange(4, f.len() as int) =~= payload);
}

/// What a reader makes of a stream, byte by byte: fewer than four bytes are its end; a length of more
/// than 524288 is refused; a payload that is not all there is a cut; otherwise the payload is the
/// bytes behind the length, as many as it says, and the rest is what follows them.
pub proof fn stream_is_read_from_its_layout(stream: Seq<u8>)
    ensures
        stream.len() < 4 ==> first_frame(stream) is End,
        stream.len() >= 4 ==> {
            let len = stream[0] + stream[1] * 0x100 + stream[2] * 0x1_0000 + stream[3]
                * 0x100_0000;
            if len > 524_288 {
                first_frame(stream) matches FrameModel::TooLarge(n) && n == len
            } else if stream.len() < 4 + len {
                first_frame(stream) is Cut
            } else {
                first_frame(stream) == FrameModel::Payload(
                    stream.subrange(4, 4 + len),
                    stream.subrange(4 + len, stream.len() as int),
                )
            }
        },
{
    if stream.len() >= 4 {
        let prefix = stream.take(4);
        bytes::little_order_weighs_late_bytes_most(prefix, 0);
        let len = bytes::le_value(prefix) as int;
        if stream.len() >= 4 + len {
            assert(stream.skip(4 + len) =~= stream.subrange(4 + len, stream.len() as int));
        }
    }
}

/// Messages are seen as they are, with all that they carry.
pub proof fn messages_are_seen_as_they_are(question: ClientMessage, answer: ServerMessage)
    ensures
        match question {
            ClientMessage::RegisterHost(s) => question@ == ClientMessageModel::RegisterHost(s@),
            ClientMessage::UnregisterHost { sender_id } => question@
                == (ClientMessageModel::UnregisterHost { sender_id }),
            ClientMessage::ListHosts => question@ is ListHosts,
            ClientMessage::ConnectRequest { target_sender_id, joiner_network_id } => question@
                == (ClientMessageModel::ConnectRequest { target_sender_id, joiner_network_id }),
            ClientMessage::Signal { target_sender_id, connection_id, joiner_network_id, data } => {
                question@ == (ClientMessageModel::Signal {
                    target_sender_id,
                    connection_id,
                    joiner_network_id,
                    data: data@,
                })
            },
            ClientMessage::Ping => question@ is Ping,
            ClientMessage::UpdateHost(s) => question@ == ClientMessageModel::UpdateHost(s@),
        },
        match answer {
            ServerMessage::Registered { sender_id } => answer@ == (ServerMessageModel::Registered {
                sender_id,
            }),
            ServerMessage::HostList(list) => answer@ == ServerMessageModel::HostList(
                discovery::advertised_views(list@),
            ),
            ServerMessage::IncomingJoin { joiner_network_id, session_id } => answer@
                == (ServerMessageModel::IncomingJoin { joiner_network_id, session_id }),
            ServerMessage::JoinAccepted { session_id } => answer@
                == (ServerMessageModel::JoinAccepted { session_id }),
            ServerMessage::Signal { connection_id, joiner_network_id, data } => answer@
                == (ServerMessageModel::Signal { connection_id, joiner_network_id, data: data@ }),
            ServerMessage::Pong => answer@ is Pong,
            ServerMessage::Error(words) => answer@ == ServerMessageModel::Error(words@),
        },
{
}

} // verus!
