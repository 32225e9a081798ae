use vstd::prelude::*;

use crate::addr::PeerAddr;
use crate::frame::{body_len, frame, push_header, push_le_bytes, push_padded};

verus! {

/// A peer of this node: its address, the replicator that sends to it (`sink`)
/// and the one that receives from it (`source`), either of which may be absent,
/// and whether a connection to it is being made.
pub struct Neighbor<Sink, Source> {
    pub addr: PeerAddr,
    pub sink: Option<Sink>,
    pub source: Option<Source>,
    pub connecting: bool,
}

impl<Sink, Source> Neighbor<Sink, Source> {
    /// A neighbor for an accepted connection, whose peer address is `peer`,
    /// with no replicator yet.
    pub fn from_connection(peer: PeerAddr) -> (n: Self)
        ensures
            n.addr == peer,
            n.sink is None,
            n.source is None,
            !n.connecting,
    {
        Neighbor { addr: peer, source: None, sink: None, connecting: false }
    }

    /// A neighbor known by its address, with no replicator yet.
    pub fn from_address(addr: PeerAddr) -> (n: Self)
        ensures
            n.addr == addr,
            n.sink is None,
            n.source is None,
            !n.connecting,
    {
        Neighbor { addr, source: None, sink: None, connecting: false }
    }

    /// A neighbor at `addr` that data is received from through `replicator`.
    pub fn from_replicator_source(replicator: Source, addr: PeerAddr) -> (n: Self)
        ensures
            n.addr == addr,
            n.sink is None,
            n.source == Some(replicator),
            !n.connecting,
    {
        Neighbor { addr, source: Some(replicator), sink: None, connecting: false }
    }

    /// A neighbor at `addr` that data is sent to through `replicator`.
    pub fn from_replicator_sink(replicator: Sink, addr: PeerAddr) -> (n: Self)
        ensures
            n.addr == addr,
            n.sink == Some(replicator),
            n.source is None,
            !n.connecting,
    {
        Neighbor { addr, source: None, sink: Some(replicator), connecting: false }
    }

    /// The neighbor's socket address.
    pub fn get_sockaddr(&self) -> (addr: PeerAddr)
        ensures
            addr == self.addr,
    {
        self.addr
    }

    /// Accepts a stream of packets to send; nothing is sent yet and the
    /// neighbor is left as it was.
    pub fn send_packets<Packets>(&mut self, _stream: Packets)
        ensures
            *final(self) == *old(self),
    {
    }

    /// Frames a serialized packet for the wire: a length prefix counting the
    /// body in four-byte words, then message id 0, the payload length, the
    /// payload and zero padding to a four-byte boundary.
    pub fn prepare_data(payload: &[u8]) -> (data: Vec<u8>)
        requires
            body_len(payload@.len()) <= usize::MAX,
        ensures
            data@ == frame(payload@),
    {
        let message_length: usize = payload.len();
        let pad: usize = if message_length % 4 == 0 {
            0
        } else {
            4 - message_length % 4
        };
        let size: usize = 8 + 4 + message_length + pad;
        assert(size == body_len(payload@.len()));
        let quarters: usize = size / 4;
        let mut data: Vec<u8> = Vec::new();
        push_header(&mut data, quarters as u64);
        push_le_bytes(&mut data, 0, 8);
        push_le_bytes(&mut data, message_length as u64, 4);
        push_padded(&mut data, payload, pad);
        assert(data@ =~= frame(payload@));
        data
    }

    /// The data to hand to the sink for a serialized packet: its frame when
    /// the neighbor has a sink, and nothing when it has none.
    pub fn send_packet(&self, payload: &[u8]) -> (data: Option<Vec<u8>>)
        requires
            self.sink is Some ==> body_len(payload@.len()) <= usize::MAX,
        ensures
            data is Some <==> self.sink is Some,
            data matches Some(d) ==> d@ == frame(payload@),
    {
        if self.sink.is_some() {
            Some(Self::prepare_data(payload))
        } else {
            None
        }
    }
}

} // verus!
