//! Datagrams on their way out.

use vstd::prelude::*;

use crate::addr::SocketAddr;

verus! {

/// Bytes to send and where to.
#[derive(Debug)]
pub struct Outgoing {
    pub to: SocketAddr,
    pub bytes: Vec<u8>,
}

/// An [`Outgoing`] as mathematical values.
pub struct OutgoingModel {
    pub to: SocketAddr,
    pub bytes: Seq<u8>,
}

impl View for Outgoing {
    type V = OutgoingModel;

    open spec fn view(&self) -> OutgoingModel {
        OutgoingModel { to: self.to, bytes: self.bytes@ }
    }
}

/// The views of some datagrams.
pub open spec fn outgoing_views(v: Seq<Outgoing>) -> Seq<OutgoingModel> {
    v.map_values(|d: Outgoing| d@)
}

/// The same bytes, each to one endpoint.
pub open spec fn all_to(packets: Seq<Seq<u8>>, to: SocketAddr) -> Seq<OutgoingModel> {
    packets.map_values(|bytes: Seq<u8>| OutgoingModel { to, bytes })
}

/// Each packet goes to the endpoint, as it is and in its place.
pub proof fn packets_keep_their_places(packets: Seq<Seq<u8>>, to: SocketAddr, i: int)
    ensures
        all_to(packets, to).len() == packets.len(),
        0 <= i < packets.len() ==> all_to(packets, to)[i].to == to && all_to(packets, to)[i].bytes
            == packets[i],
{
}

/// A datagram is known by where it goes and by its bytes, and a list of them by each in its place.
pub proof fn datagrams_are_seen_as_they_are(v: Seq<Outgoing>, i: int)
    ensures
        outgoing_views(v).len() == v.len(),
        0 <= i < v.len() ==> outgoing_views(v)[i].to == v[i].to && outgoing_views(v)[i].bytes
            == v[i].bytes@,
{
}

} // verus!
