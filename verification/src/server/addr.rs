//! The addresses of peers.

use vstd::prelude::*;

use super::table::Key;

verus! {

/// An IP address: its version and its bits.
#[derive(Debug, Clone, Copy, PartialEq, Eq, Hash, Structural)]
pub struct IpKey {
    pub v6: bool,
    pub bits: u128,
}

/// The address of a connected peer. `flow` and `scope` tell IPv6 sockets apart
/// and are zero for IPv4.
#[derive(Debug, Clone, Copy, PartialEq, Eq, Hash, Structural)]
pub struct PeerAddr {
    pub ip: IpKey,
    pub port: u16,
    pub flow: u32,
    pub scope: u32,
}

impl Key for IpKey {
    fn same(&self, other: &Self) -> (b: bool) {
        *self == *other
    }
}

impl Key for PeerAddr {
    fn same(&self, other: &Self) -> (b: bool) {
        *self == *other
    }
}

} // verus!
