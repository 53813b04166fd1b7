//! Peer addresses.

use vstd::prelude::*;

verus! {

/// The socket address of a connection's peer, held as plain numbers.
///
/// Two addresses are the same peer exactly when they are the same variant
/// with the same numbers, which is how socket addresses compare.
#[allow(inconsistent_fields)]
#[derive(Clone, Copy, Debug, PartialEq, Eq, Hash, Structural)]
pub enum Address {
    /// An IPv4 socket address.
    V4 {
        /// The four octets of the IP address, the first in the highest byte.
        ip: u32,
        /// The port.
        port: u16,
    },
    /// An IPv6 socket address.
    V6 {
        /// The sixteen octets of the IP address, the first in the highest byte.
        ip: u128,
        /// The port.
        port: u16,
        /// The flow information of the address.
        flowinfo: u32,
        /// The scope of the address.
        scope_id: u32,
    },
}

} // verus!
