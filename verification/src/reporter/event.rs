//! Lifecycle events and the errors they carry.

use super::address::Address;
use vstd::prelude::*;

verus! {

/// The direction in which traffic was being forwarded when a failure occurred.
#[derive(Clone, Copy, Debug, PartialEq, Eq, Structural)]
pub enum Direction {
    /// Client data was being forwarded to the server.
    ClientToServer,
    /// Server data was being forwarded to the client.
    ServerToClient,
}

/// Why a connection did not close gracefully: the direction that failed and
/// the description of the underlying I/O failure.
#[derive(Debug, PartialEq, Eq)]
pub struct SocketCloseError(pub Direction, pub String);

/// The text that every rendered [`SocketCloseError`] starts with.
///
/// The text names the client-to-server leg whichever direction failed; the
/// failing direction is carried by the error itself, not by its rendering.
pub open spec fn forwarding_failure_prefix() -> Seq<char> {
    "Error while forwarding client traffic to the server: "@
}

impl SocketCloseError {
    /// The rendered error: the fixed prefix, then the failure description
    /// exactly as it was recorded.
    pub open spec fn spec_text(&self) -> Seq<char> {
        forwarding_failure_prefix() + self.1@
    }

    /// Renders the error for a log line: the fixed prefix, then the failure
    /// description exactly as it was recorded.
    pub fn to_string(&self) -> (text: String)
        ensures
            text@ == forwarding_failure_prefix() + self.1@,
    {
        let prefix = String::from_str("Error while forwarding client traffic to the server: ");
        prefix.concat(self.1.as_str())
    }
}

/// A step in the life of one connection, as told to the reporter.
#[derive(Debug, PartialEq, Eq)]
pub enum Event {
    /// The connection to the destination was opened for this peer.
    Opened(Address),
    /// Both directions ran to their end and the connection was closed.
    ClosedGracefully(Address),
    /// One direction failed and the connection was closed.
    ClosedWithError(Address, SocketCloseError),
}

impl Event {
    /// The peer whose connection the event is about.
    pub open spec fn spec_address(&self) -> Address {
        match *self {
            Event::Opened(addr) => addr,
            Event::ClosedGracefully(addr) => addr,
            Event::ClosedWithError(addr, _) => addr,
        }
    }

    /// Whether the event ends a connection, gracefully or not.
    pub open spec fn spec_is_close(&self) -> bool {
        !(*self is Opened)
    }

    /// The peer whose connection the event is about.
    #[verifier::when_used_as_spec(spec_address)]
    pub fn address(&self) -> (addr: Address)
        ensures
            addr == self.spec_address(),
    {
        match self {
            Event::Opened(addr) => *addr,
            Event::ClosedGracefully(addr) => *addr,
            Event::ClosedWithError(addr, _) => *addr,
        }
    }

    /// Whether the event ends a connection, gracefully or not.
    #[verifier::when_used_as_spec(spec_is_close)]
    pub fn is_close(&self) -> (close: bool)
        ensures
            close == self.spec_is_close(),
    {
        match self {
            Event::Opened(_) => false,
            _ => true,
        }
    }
}

} // verus!
