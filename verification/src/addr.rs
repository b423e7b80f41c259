//! Peer addresses and their registry keys.
//!
//! A peer is identified by the remote endpoint of its connection: an IPv4
//! address and a port.  The connection registry tracks peers by a single
//! integer key, so an address is packed losslessly into a `u64`.

use vstd::prelude::*;

verus! {

/// The remote endpoint of one connection: an IPv4 address and a port.
/// Immutable once the connection is established.
#[derive(PartialEq, Eq, Structural, Clone, Copy, Debug, Hash)]
pub struct PeerAddr {
    /// The peer's IPv4 address, as one 32-bit value.
    pub ip: u32,
    /// The peer's TCP port.
    pub port: u16,
}

/// The registry key of an address: the address and port packed into one
/// integer, address in the high bits.
pub open spec fn addr_key(a: PeerAddr) -> u64 {
    ((a.ip as u64) << 16) | (a.port as u64)
}

impl PeerAddr {
    /// The key under which the registry tracks this peer.
    pub fn key(&self) -> (k: u64)
        ensures
            k == addr_key(*self),
    {
        ((self.ip as u64) << 16) | (self.port as u64)
    }
}

/// Packing is lossless: distinct addresses have distinct registry keys.
pub proof fn lemma_addr_key_injective(a: PeerAddr, b: PeerAddr)
    ensures
        addr_key(a) == addr_key(b) ==> a == b,
{
    let ai = a.ip;
    let ap = a.port;
    let bi = b.ip;
    let bp = b.port;
    let ka = addr_key(a);
    let kb = addr_key(b);
    assert(ka == kb ==> ai == bi && ap == bp) by (bit_vector)
        requires
            ka == ((ai as u64) << 16) | (ap as u64),
            kb == ((bi as u64) << 16) | (bp as u64),
    ;
}

} // verus!
