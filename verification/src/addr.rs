use vstd::prelude::*;

verus! {

/// The socket address of a peer, held as plain values: an IPv4 address and
/// port, or an IPv6 address, port, flow label and scope id.
#[derive(Clone, Copy, Debug, PartialEq, Eq)]
pub enum PeerAddr {
    V4 { ip: [u8; 4], port: u16 },
    V6 { ip: [u16; 8], port: u16, flowinfo: u32, scope_id: u32 },
}

} // verus!
