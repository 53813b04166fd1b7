//! The verified core of a transparent TCP relay.
//!
//! The relay accepts connections on one address and forwards each of them,
//! byte for byte, to a fixed destination. This crate holds the decisions of
//! such a service and proves them: the bookkeeping of the reporter that
//! counts open connections, the life cycle of a relayed connection, and the
//! policy of the accept loop. Sockets and tasks stay with the caller, who
//! feeds what happened on them into the state machines found here and carries
//! out what they answer.

pub mod proxy;
pub mod reporter;
pub mod service;
