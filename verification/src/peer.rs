//! Transport-level identity of a remote endpoint.

use vstd::prelude::*;

verus! {

/// Address and port of a peer, as plain integers.
///
/// A peer address is both the origin of an inbound message and the routing
/// key of an outbound one. Two addresses are the same peer exactly when all
/// their fields agree.
#[derive(Clone, Copy, Debug, PartialEq, Eq, Hash, Structural)]
#[allow(inconsistent_fields)]
pub enum PeerAddress {
    /// An IPv4 endpoint; `ip` holds the four octets, first octet highest.
    V4 { ip: u32, port: u16 },
    /// An IPv6 endpoint; `ip` holds the sixteen octets, first octet highest.
    V6 { ip: u128, port: u16, flowinfo: u32, scope_id: u32 },
}

} // verus!
