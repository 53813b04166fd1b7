//! The proxy: the relay of one connection and the loop that accepts them.

pub mod failure;
pub mod listener;
pub mod relay;

pub use failure::map_io_error;
pub use listener::{Listener, ListenerAction, ListenerPhase, ListenerProgress};
pub use relay::{Action, Leg, Phase, Progress, Relay};
